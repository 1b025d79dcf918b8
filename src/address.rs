use vstd::prelude::*;
use anchor_lang::prelude::Pubkey;

verus! {

/// A 32-byte public key: the identity of a party, or the address of a record.
#[derive(Clone, Copy, Debug, PartialEq, Eq, Hash)]
pub struct Key {
    pub bytes: [u8; 32],
}

impl View for Key {
    type V = Seq<u8>;

    open spec fn view(&self) -> Seq<u8> {
        self.bytes@
    }
}

impl Key {
    pub fn new(bytes: [u8; 32]) -> (r: Key)
        ensures
            r@ == bytes@,
    {
        Key { bytes }
    }

    pub fn to_vec(&self) -> (r: Vec<u8>)
        ensures
            r@ == self@,
    {
        let mut out: Vec<u8> = Vec::new();
        let mut i: usize = 0;
        while i < 32
            invariant
                0 <= i <= 32,
                self@.len() == 32,
                out@ == self@.subrange(0, i as int),
            decreases 32 - i,
        {
            out.push(self.bytes[i]);
            i = i + 1;
            assert(out@ =~= self@.subrange(0, i as int));
        }
        assert(self@.subrange(0, 32) =~= self@);
        out
    }

    /// Byte-wise comparison of two keys.
    pub fn same_as(&self, other: &Key) -> (r: bool)
        ensures
            r == (self@ == other@),
    {
        let mut i: usize = 0;
        while i < 32
            invariant
                0 <= i <= 32,
                self@.len() == 32,
                other@.len() == 32,
                forall|j: int| 0 <= j < i ==> self@[j] == other@[j],
            decreases 32 - i,
        {
            if self.bytes[i] != other.bytes[i] {
                return false;
            }
            i = i + 1;
        }
        assert(self@ =~= other@);
        true
    }
}

/// Seed tag of the per-owner summary record: the bytes of "user".
pub open spec fn user_tag() -> Seq<u8> {
    seq![117u8, 115u8, 101u8, 114u8]
}

/// Seed tag of the investment records: the bytes of "investment".
pub open spec fn investment_tag() -> Seq<u8> {
    seq![105u8, 110u8, 118u8, 101u8, 115u8, 116u8, 109u8, 101u8, 110u8, 116u8]
}

/// The `k` low bytes of `n`, least significant first.
pub open spec fn le_bytes(n: nat, k: nat) -> Seq<u8>
    decreases k,
{
    if k == 0 {
        seq![]
    } else {
        seq![(n % 256) as u8] + le_bytes(n / 256, (k - 1) as nat)
    }
}

pub open spec fn user_seeds(owner: Seq<u8>) -> Seq<Seq<u8>> {
    seq![user_tag(), owner]
}

pub open spec fn investment_seeds(owner: Seq<u8>, sequence: u64) -> Seq<Seq<u8>> {
    seq![investment_tag(), owner, le_bytes(sequence as nat, 8)]
}

pub open spec fn seeds_view(seeds: Seq<Vec<u8>>) -> Seq<Seq<u8>> {
    seeds.map_values(|s: Vec<u8>| s@)
}

/// The program-derived address of `seeds` under `program_id` and its bump seed,
/// or `None` where no bump seed gives one.
pub uninterp spec fn program_address(seeds: Seq<Seq<u8>>, program_id: Seq<u8>) -> Option<(Seq<u8>, u8)>;

/// The base58 text of a key.
pub uninterp spec fn key_text(bytes: Seq<u8>) -> Seq<char>;

/// The address part of a derivation, if there is one.
pub open spec fn derived(seeds: Seq<Seq<u8>>, program_id: Seq<u8>) -> Option<Seq<u8>> {
    match program_address(seeds, program_id) {
        Some((k, _)) => Some(k),
        None => None,
    }
}

/// Relies on `Pubkey::try_find_program_address` of solana-program: the search for a
/// bump seed is a function of the seeds and the program id alone.
#[verifier::external_body]
fn find_program_address(seeds: &Vec<Vec<u8>>, program_id: &Key) -> (r: Option<(Key, u8)>)
    ensures
        match r {
            Some((k, bump)) => program_address(seeds_view(seeds@), program_id@) == Some((k@, bump)),
            None => program_address(seeds_view(seeds@), program_id@) is None,
        },
{
    let refs: Vec<&[u8]> = seeds.iter().map(|s| s.as_slice()).collect();
    let program = Pubkey::new_from_array(program_id.bytes);
    Pubkey::try_find_program_address(&refs, &program).map(|(k, bump)| (Key { bytes: k.to_bytes() }, bump))
}

/// Relies on `Display` of solana-program's `Pubkey`: base58 text that depends on
/// the key's bytes alone.
#[verifier::external_body]
pub(crate) fn key_to_string(key: &Key) -> (r: String)
    ensures
        r@ == key_text(key@),
{
    Pubkey::new_from_array(key.bytes).to_string()
}

/// The 8 little-endian bytes of `n`.
pub fn u64_le_bytes(n: u64) -> (r: Vec<u8>)
    ensures
        r@ == le_bytes(n as nat, 8),
{
    let mut out: Vec<u8> = Vec::new();
    let mut v: u64 = n;
    let mut i: usize = 0;
    while i < 8
        invariant
            0 <= i <= 8,
            out@ + le_bytes(v as nat, (8 - i) as nat) == le_bytes(n as nat, 8),
        decreases 8 - i,
    {
        let ghost rest = le_bytes((v / 256) as nat, (8 - i - 1) as nat);
        assert(le_bytes(v as nat, (8 - i) as nat) == seq![(v % 256) as u8] + rest);
        out.push((v % 256) as u8);
        assert(out@ + rest =~= le_bytes(n as nat, 8));
        v = v / 256;
        i = i + 1;
    }
    assert(out@ =~= out@ + le_bytes(v as nat, 0));
    out
}

/// Address of the summary record of `owner` under `program_id`.
pub fn user_address(program_id: &Key, owner: &Key) -> (r: Option<Key>)
    ensures
        match r {
            Some(k) => derived(user_seeds(owner@), program_id@) == Some(k@),
            None => derived(user_seeds(owner@), program_id@) is None,
        },
{
    let seeds: Vec<Vec<u8>> = vec![vec![117u8, 115u8, 101u8, 114u8], owner.to_vec()];
    assert(seeds_view(seeds@) =~= user_seeds(owner@));
    match find_program_address(&seeds, program_id) {
        Some((k, _)) => Some(k),
        None => None,
    }
}

/// Address of the investment record that `owner` makes as its `sequence`-th
/// investment (counting from zero) under `program_id`.
pub fn investment_address(program_id: &Key, owner: &Key, sequence: u64) -> (r: Option<Key>)
    ensures
        match r {
            Some(k) => derived(investment_seeds(owner@, sequence), program_id@) == Some(k@),
            None => derived(investment_seeds(owner@, sequence), program_id@) is None,
        },
{
    let seeds: Vec<Vec<u8>> = vec![
        vec![105u8, 110u8, 118u8, 101u8, 115u8, 116u8, 109u8, 101u8, 110u8, 116u8],
        owner.to_vec(),
        u64_le_bytes(sequence),
    ];
    assert(seeds_view(seeds@) =~= investment_seeds(owner@, sequence));
    match find_program_address(&seeds, program_id) {
        Some((k, _)) => Some(k),
        None => None,
    }
}

} // verus!
