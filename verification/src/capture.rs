//! Screen recordings and screenshots: where they are written, which frames
//! go into a GIF, pixel layout, crop clamping, and the answer to a stop request.
use crate::text::{chars_of, spec_trim, string_of_range, trim_bounds};
use vstd::prelude::*;
use vstd::string::*;

verus! {

/// Frames per second of recorded GIFs.
pub const GIF_FPS: u32 = 12;

/// The longest edge of recorded GIFs, in pixels.
pub const GIF_MAX_EDGE: u32 = 800;

/// `base` joined with `file` as a Unix path: an absolute `file` replaces
/// `base`; otherwise a '/' goes between them unless `base` is empty or
/// already ends with one.
pub open spec fn join_path(base: Seq<char>, file: Seq<char>) -> Seq<char> {
    if file.len() > 0 && file[0] == '/' {
        file
    } else if base.len() == 0 || base.last() == '/' {
        base + file
    } else {
        base + "/"@ + file
    }
}

/// Joins two Unix paths (see `join_path`).
pub fn join(base: &str, file: &str) -> (p: String)
    ensures
        p@ == join_path(base@, file@),
{
    let f = chars_of(file);
    let b = chars_of(base);
    if f.len() > 0 && f[0] == '/' {
        return file.to_owned();
    }
    if b.len() == 0 || b[b.len() - 1] == '/' {
        base.to_owned().concat(file)
    } else {
        base.to_owned().concat("/").concat(file)
    }
}

/// The video file and, when a GIF is asked for, the GIF file of a
/// recording: in `dir` (else `default_dir`), named `name` (else
/// `vmux-` and the time stamp), with the extensions `.mp4` and `.gif`.
pub open spec fn spec_output_paths(
    dir: Option<Seq<char>>,
    name: Option<Seq<char>>,
    gif: bool,
    timestamp: Seq<char>,
    default_dir: Seq<char>,
) -> (Seq<char>, Option<Seq<char>>) {
    let base_dir = match dir {
        Some(d) => d,
        None => default_dir,
    };
    let base_name = match name {
        Some(n) => n,
        None => "vmux-"@ + timestamp,
    };
    (
        join_path(base_dir, base_name + ".mp4"@),
        if gif {
            Some(join_path(base_dir, base_name + ".gif"@))
        } else {
            None
        },
    )
}

/// The files a recording is written to (see `spec_output_paths`).
pub fn resolve_output_paths(
    dir: Option<&str>,
    name: Option<&str>,
    gif: bool,
    timestamp: &str,
    default_dir: &str,
) -> (r: (String, Option<String>))
    ensures
        r.0@ == spec_output_paths(
            match dir {
                Some(d) => Some(d@),
                None => None,
            },
            match name {
                Some(n) => Some(n@),
                None => None,
            },
            gif,
            timestamp@,
            default_dir@,
        ).0,
        match r.1 {
            Some(g) => spec_output_paths(
                match dir {
                    Some(d) => Some(d@),
                    None => None,
                },
                match name {
                    Some(n) => Some(n@),
                    None => None,
                },
                gif,
                timestamp@,
                default_dir@,
            ).1 == Some(g@),
            None => !gif,
        },
{
    let base_dir = match dir {
        Some(d) => d,
        None => default_dir,
    };
    let base_name = match name {
        Some(n) => n.to_owned(),
        None => "vmux-".to_owned().concat(timestamp),
    };
    let mp4_name = base_name.clone().concat(".mp4");
    let mp4 = join(base_dir, mp4_name.as_str());
    let gif_path = if gif {
        let gif_name = base_name.concat(".gif");
        Some(join(base_dir, gif_name.as_str()))
    } else {
        None
    };
    (mp4, gif_path)
}

/// The output directory of captures: the configured one, trimmed, unless it
/// is blank; otherwise `default_dir`.
pub fn capture_output_dir(configured: Option<&str>, default_dir: &str) -> (dir: String)
    ensures
        dir@ == match configured {
            Some(c) => if spec_trim(c@).len() > 0 {
                spec_trim(c@)
            } else {
                default_dir@
            },
            None => default_dir@,
        },
{
    match configured {
        Some(c) => {
            let cs = chars_of(c);
            let (a, b) = trim_bounds(&cs, 0, cs.len());
            assert(cs@.subrange(0, cs@.len() as int) =~= c@);
            if a < b {
                string_of_range(&cs, a, b)
            } else {
                default_dir.to_owned()
            }
        },
        None => default_dir.to_owned(),
    }
}

/// Whether a frame at `elapsed_ms` goes into the GIF: the first one does;
/// later ones once a frame interval (1000 ms over the frame rate, at least
/// one frame per second) has passed since the last sampled one.
pub open spec fn spec_should_sample(elapsed_ms: u64, last_sampled_ms: Option<u64>, fps: u32) -> bool {
    let interval: int = 1000int / (if fps < 1 {
        1int
    } else {
        fps as int
    });
    match last_sampled_ms {
        None => true,
        Some(last) => (if elapsed_ms >= last {
            elapsed_ms - last
        } else {
            0
        }) >= interval,
    }
}

/// Whether a frame goes into the GIF (see `spec_should_sample`).
pub fn should_sample_gif_frame(elapsed_ms: u64, last_sampled_ms: Option<u64>, fps: u32) -> (r: bool)
    ensures
        r == spec_should_sample(elapsed_ms, last_sampled_ms, fps),
{
    let f = if fps < 1 {
        1
    } else {
        fps
    };
    let interval: u64 = (1000 / f) as u64;
    match last_sampled_ms {
        None => true,
        Some(last) => elapsed_ms.saturating_sub(last) >= interval,
    }
}

/// The RGBA bytes of BGRA pixels: each whole pixel has its blue and red
/// bytes swapped; bytes after the last whole pixel are zero.
pub open spec fn rgba_byte(bgra: Seq<u8>, k: int) -> u8 {
    if k / 4 * 4 + 4 > bgra.len() {
        0
    } else if k % 4 == 0 {
        bgra[k + 2]
    } else if k % 4 == 2 {
        bgra[k - 2]
    } else {
        bgra[k]
    }
}

/// Converts BGRA pixels to RGBA (see `rgba_byte`).
pub fn bgra_to_rgba(bgra: &[u8]) -> (out: Vec<u8>)
    ensures
        out@.len() == bgra@.len(),
        forall|k: int| 0 <= k < out@.len() ==> #[trigger] out@[k] == rgba_byte(bgra@, k),
{
    let n = bgra.len();
    let whole = n / 4;
    let mut out: Vec<u8> = Vec::new();
    let mut p: usize = 0;
    while p < whole
        invariant
            n == bgra@.len(),
            whole == n / 4,
            p <= whole,
            out@.len() == 4 * p,
            forall|k: int| 0 <= k < out@.len() ==> #[trigger] out@[k] == rgba_byte(bgra@, k),
        decreases whole - p,
    {
        let o = p * 4;
        out.push(bgra[o + 2]);
        out.push(bgra[o + 1]);
        out.push(bgra[o]);
        out.push(bgra[o + 3]);
        assert forall|k: int| o <= k < o + 4 implies #[trigger] out@[k] == rgba_byte(bgra@, k) by {
            assert(k / 4 == p);
            assert(k % 4 == k - o);
        }
        p = p + 1;
    }
    while out.len() < n
        invariant
            n == bgra@.len(),
            whole == n / 4,
            4 * whole <= out@.len() <= n,
            forall|k: int| 0 <= k < out@.len() ==> #[trigger] out@[k] == rgba_byte(bgra@, k),
        decreases n - out@.len(),
    {
        let ghost k = out@.len() as int;
        out.push(0);
        assert(k / 4 * 4 + 4 > n);
    }
    out
}

/// A crop rectangle in image pixels.
#[derive(Clone, Copy, Debug, PartialEq, Eq, Structural)]
pub struct CropRect {
    pub x: u32,
    pub y: u32,
    pub w: u32,
    pub h: u32,
}

/// The crop of a pane whose rounded edges are `left`, `top`, `w`, `h`: its
/// corner kept inside the image, and its size cut to what the image holds
/// from there.
pub open spec fn spec_clamp_crop(left: u32, top: u32, w: u32, h: u32, img_w: u32, img_h: u32) -> CropRect {
    let max_x: int = if img_w >= 1 {
        img_w - 1
    } else {
        0
    };
    let max_y: int = if img_h >= 1 {
        img_h - 1
    } else {
        0
    };
    let x: int = if left <= max_x {
        left as int
    } else {
        max_x
    };
    let y: int = if top <= max_y {
        top as int
    } else {
        max_y
    };
    CropRect {
        x: x as u32,
        y: y as u32,
        w: if w <= img_w - x {
            w
        } else {
            (img_w - x) as u32
        },
        h: if h <= img_h - y {
            h
        } else {
            (img_h - y) as u32
        },
    }
}

/// Clamps a pane's crop to the image (see `spec_clamp_crop`).
pub fn clamp_crop(left: u32, top: u32, w: u32, h: u32, img_w: u32, img_h: u32) -> (r: CropRect)
    ensures
        r == spec_clamp_crop(left, top, w, h, img_w, img_h),
        r.x as int + r.w as int <= img_w || img_w == 0,
        r.y as int + r.h as int <= img_h || img_h == 0,
        img_w >= 1 && w >= 1 ==> r.w >= 1,
        img_h >= 1 && h >= 1 ==> r.h >= 1,
{
    let x = if left < img_w.saturating_sub(1) {
        left
    } else {
        img_w.saturating_sub(1)
    };
    let y = if top < img_h.saturating_sub(1) {
        top
    } else {
        img_h.saturating_sub(1)
    };
    let ww = if w < img_w - x {
        w
    } else {
        img_w - x
    };
    let hh = if h < img_h - y {
        h
    } else {
        img_h - y
    };
    CropRect { x, y, w: ww, h: hh }
}

/// The answer to a stop request: a failed stop is answered with the
/// recording that stopped on its own since the last answer, if there was
/// one; that recording is forgotten by any answer. An outcome without a
/// request is a recording that stopped on its own: a successful one is
/// remembered, and nothing is answered.
pub fn settle_recording_outcome<T>(
    last_auto: &mut Option<T>,
    request_id: Option<[u8; 16]>,
    result: Result<T, String>,
) -> (answer: Option<([u8; 16], Result<T, String>)>)
    ensures
        match request_id {
            Some(id) => {
                &&& *final(last_auto) is None
                &&& answer matches Some((aid, r)) && aid == id && (match (result, *old(
                    last_auto,
                )) {
                    (Err(_), Some(info)) => r == Ok::<T, String>(info),
                    _ => r == result,
                })
            },
            None => {
                &&& answer is None
                &&& match result {
                    Ok(info) => *final(last_auto) == Some(info),
                    Err(_) => *final(last_auto) == *old(last_auto),
                }
            },
        },
{
    match request_id {
        Some(id) => {
            let prev = last_auto.take();
            let r = match (result, prev) {
                (Err(e), Some(info)) => Ok(info),
                (r, _) => r,
            };
            Some((id, r))
        },
        None => {
            match result {
                Ok(info) => {
                    *last_auto = Some(info);
                },
                Err(_) => {},
            }
            None
        },
    }
}

/// Stops the recording of `request_id`. Recording is not available on this
/// platform, so nothing is recording and there is nothing to stop.
pub fn stop(request_id: [u8; 16], dir: Option<String>, name: Option<String>) {
}

/// Stops recordings that reached their time limit. Recording is not
/// available on this platform, so there are none.
pub fn poll_auto_stop() {
}

} // verus!
