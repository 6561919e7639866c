//! Keeping the terminals' colour theme in step with the settings: a hash of
//! the theme's colours tells when it changed, and which terminals are sent
//! the theme follows from it.
use vstd::prelude::*;

verus! {

/// The 64-bit hash of the theme's colour bytes, in order: each byte is
/// added to the hash times 31, wrapping.
pub open spec fn theme_hash(bytes: Seq<u8>) -> nat
    decreases bytes.len(),
{
    if bytes.len() == 0 {
        0
    } else {
        (theme_hash(bytes.drop_last()) * 31 + bytes.last() as nat) % 0x1_0000_0000_0000_0000nat
    }
}

/// One step of the hash: the byte added to the hash times 31, wrapping,
/// is the same as the exact value taken modulo 2^64.
proof fn lemma_hash_step(h: u64, b: u8)
    ensures
        h.wrapping_mul(31).wrapping_add(b as u64) as nat == (h as nat * 31 + b as nat)
            % 0x1_0000_0000_0000_0000,
{
    let r: int = 0x1_0000_0000_0000_0000;
    let x: int = h as int * 31;
    vstd::arithmetic::div_mod::lemma_fundamental_div_mod(x, r);
    let m = x % r;
    let q = x / r;
    assert(0 <= m < r) by {
        vstd::arithmetic::div_mod::lemma_mod_pos_bound(x, r);
    }
    assert(x == q * r + m) by (nonlinear_arith)
        requires
            x == r * q + m,
    ;
    if m + b >= r {
        vstd::arithmetic::div_mod::lemma_fundamental_div_mod_converse(x + b, r, q + 1, m + b - r);
    } else {
        vstd::arithmetic::div_mod::lemma_fundamental_div_mod_converse(x + b, r, q, m + b);
    }
}

/// The hash of the theme's colour bytes (see `theme_hash`).
pub fn theme_colors_hash(bytes: &Vec<u8>) -> (h: u64)
    ensures
        h as nat == theme_hash(bytes@),
{
    let mut h: u64 = 0;
    let mut i: usize = 0;
    while i < bytes.len()
        invariant
            i <= bytes@.len(),
            h as nat == theme_hash(bytes@.subrange(0, i as int)),
        decreases bytes@.len() - i,
    {
        let b = bytes[i];
        proof {
            lemma_hash_step(h, b);
            let ghost pre = bytes@.subrange(0, i + 1);
            assert(pre.drop_last() =~= bytes@.subrange(0, i as int));
            assert(pre.last() == b);
        }
        h = h.wrapping_mul(31).wrapping_add(b as u64);
        i = i + 1;
    }
    proof {
        assert(bytes@.subrange(0, bytes@.len() as int) =~= bytes@);
    }
    h
}

/// Which terminals are sent the theme on a frame, where its colour bytes
/// hash to a value other than the one last sent: all of them; otherwise
/// the ones that appeared and the ones whose page became ready this frame,
/// if any. `None` means nothing is sent and the last hash stays; otherwise
/// the hash is remembered.
pub fn theme_sync_targets(
    last_hash: &mut u64,
    colour_bytes: &Vec<u8>,
    all: &Vec<u64>,
    added: &Vec<u64>,
    newly_ready: &Vec<u64>,
) -> (targets: Option<Vec<u64>>)
    ensures
        ({
            let h = theme_hash(colour_bytes@);
            let changed = h != *old(last_hash) as nat;
            if !changed && added@.len() == 0 && newly_ready@.len() == 0 {
                targets is None && *final(last_hash) == *old(last_hash)
            } else {
                &&& *final(last_hash) as nat == h
                &&& targets matches Some(t) && t@ == if changed {
                    all@
                } else {
                    added@ + newly_ready@
                }
            }
        }),
{
    let h = theme_colors_hash(colour_bytes);
    let changed = h != *last_hash;
    if !changed && added.len() == 0 && newly_ready.len() == 0 {
        return None;
    }
    *last_hash = h;
    if changed {
        return Some(all.clone());
    }
    let mut t: Vec<u64> = added.clone();
    let mut i: usize = 0;
    while i < newly_ready.len()
        invariant
            i <= newly_ready@.len(),
            t@ == added@ + newly_ready@.subrange(0, i as int),
        decreases newly_ready@.len() - i,
    {
        t.push(newly_ready[i]);
        proof {
            assert(newly_ready@.subrange(0, i + 1) =~= newly_ready@.subrange(0, i as int).push(
                newly_ready@[i as int],
            ));
            assert(added@ + newly_ready@.subrange(0, i + 1) =~= (added@ + newly_ready@.subrange(
                0,
                i as int,
            )).push(newly_ready@[i as int]));
        }
        i = i + 1;
    }
    proof {
        assert(newly_ready@.subrange(0, newly_ready@.len() as int) =~= newly_ready@);
    }
    Some(t)
}

} // verus!
