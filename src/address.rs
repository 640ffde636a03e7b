//! Identities and the derivation of an escrow's program address.
use anchor_lang::solana_program::pubkey::Pubkey;
use vstd::prelude::*;

verus! {

broadcast use vstd::array::group_array_axioms;

/// A 32-byte identity: a signer, a mint or a program-derived address.
pub type Key = [u8; 32];

/// Whether two identities are the same.
pub fn key_eq(a: &Key, b: &Key) -> (r: bool)
    ensures
        r == (*a == *b),
{
    let mut i: usize = 0;
    while i < 32
        invariant
            0 <= i <= 32,
            forall|j: int| 0 <= j < i ==> a[j] == b[j],
        decreases 32 - i,
    {
        if a[i] != b[i] {
            return false;
        }
        i = i + 1;
    }
    assert(*a =~= *b);
    true
}

/// The address and bump that the program address derivation yields for the
/// given seeds and program, or `None` where no bump gives a valid address.
pub uninterp spec fn program_address(seeds: Seq<Seq<u8>>, program_id: Key) -> Option<(Key, u8)>;

/// Relies on `Pubkey::try_find_program_address` of solana-program (re-exported
/// by anchor-lang): a deterministic function of the seeds and the program id,
/// returning `None` rather than panicking when no bump is found.
#[verifier::external_body]
fn find_program_address(seeds: &Vec<Vec<u8>>, program_id: &Key) -> (r: Option<(Key, u8)>)
    ensures
        r == program_address(seeds.deep_view(), *program_id),
{
    let refs: Vec<&[u8]> = seeds.iter().map(|s| s.as_slice()).collect();
    Pubkey::try_find_program_address(&refs, &Pubkey::new_from_array(*program_id))
        .map(|(k, b)| (k.to_bytes(), b))
}

/// The namespace tag that starts an escrow's seeds: the bytes of "state".
pub open spec fn escrow_tag() -> Seq<u8> {
    seq![115u8, 116u8, 97u8, 116u8, 101u8]
}

/// The `n` low bytes of `x`, least significant first.
pub open spec fn le_bytes(x: nat, n: nat) -> Seq<u8>
    decreases n,
{
    if n == 0 {
        Seq::empty()
    } else {
        seq![(x % 256) as u8] + le_bytes(x / 256, (n - 1) as nat)
    }
}

/// The seeds of the escrow that `initializer` opens under `seed`.
pub open spec fn escrow_seeds(initializer: Key, seed: u64) -> Seq<Seq<u8>> {
    seq![escrow_tag(), initializer@, le_bytes(seed as nat, 8)]
}

/// The derived address and bump of the escrow that `initializer` opens under
/// `seed` for `program_id`.
pub open spec fn escrow_address(program_id: Key, initializer: Key, seed: u64) -> Option<(Key, u8)> {
    program_address(escrow_seeds(initializer, seed), program_id)
}

/// The eight bytes of `seed`, least significant first.
pub fn seed_le_bytes(seed: u64) -> (r: Vec<u8>)
    ensures
        r@ == le_bytes(seed as nat, 8),
{
    let mut out: Vec<u8> = Vec::new();
    let mut rest: u64 = seed;
    let mut i: usize = 0;
    while i < 8
        invariant
            0 <= i <= 8,
            out@ + le_bytes(rest as nat, (8 - i) as nat) == le_bytes(seed as nat, 8),
        decreases 8 - i,
    {
        let ghost before = out@;
        out.push((rest % 256) as u8);
        assert(le_bytes(rest as nat, (8 - i) as nat) == seq![(rest % 256) as u8] + le_bytes(
            (rest / 256) as nat,
            (8 - i - 1) as nat,
        ));
        assert(out@ + le_bytes((rest / 256) as nat, (8 - i - 1) as nat) =~= before + le_bytes(
            rest as nat,
            (8 - i) as nat,
        ));
        rest = rest / 256;
        i = i + 1;
    }
    assert(out@ + le_bytes(rest as nat, 0) =~= out@);
    out
}

/// The bytes of an identity.
pub fn key_bytes(k: &Key) -> (r: Vec<u8>)
    ensures
        r@ == k@,
{
    let mut out: Vec<u8> = Vec::new();
    let mut i: usize = 0;
    while i < 32
        invariant
            0 <= i <= 32,
            out@ == k@.subrange(0, i as int),
        decreases 32 - i,
    {
        out.push(k[i]);
        assert(out@ =~= k@.subrange(0, i + 1));
        i = i + 1;
    }
    assert(out@ =~= k@);
    out
}

/// The seeds of the escrow that `initializer` opens under `seed`.
pub fn escrow_seed_bytes(initializer: &Key, seed: u64) -> (r: Vec<Vec<u8>>)
    ensures
        r.deep_view() == escrow_seeds(*initializer, seed),
{
    let tag: Vec<u8> = vec![115u8, 116u8, 97u8, 116u8, 101u8];
    assert(tag@ =~= escrow_tag());
    let mut r: Vec<Vec<u8>> = Vec::new();
    r.push(tag);
    let kb = key_bytes(initializer);
    let sb = seed_le_bytes(seed);
    r.push(kb);
    r.push(sb);
    assert(r.deep_view().len() == 3);
    assert(r.deep_view()[0] == escrow_tag());
    assert(r.deep_view()[1] == initializer@);
    assert(r.deep_view()[2] == le_bytes(seed as nat, 8));
    assert(r.deep_view() =~= escrow_seeds(*initializer, seed));
    r
}

/// Derives the address and bump of the escrow that `initializer` opens under
/// `seed` for `program_id`.
pub fn derive_escrow_address(program_id: &Key, initializer: &Key, seed: u64) -> (r: Option<(Key, u8)>)
    ensures
        r == escrow_address(*program_id, *initializer, seed),
{
    let seeds = escrow_seed_bytes(initializer, seed);
    find_program_address(&seeds, program_id)
}

} // verus!
