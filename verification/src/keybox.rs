//! The key box: a permutation of the 256 byte values, scheduled from the
//! key material, and the keystream it defines.

use vstd::prelude::*;

verus! {

/// Number of entries of a key box.
pub const KEY_BOX_LEN: usize = 256;

/// The table that holds `i` at position `i`.
pub open spec fn identity_table() -> Seq<u8> {
    Seq::new(256, |i: int| i as u8)
}

/// `table` holds each of the 256 byte values exactly once.
pub open spec fn is_permutation(table: Seq<u8>) -> bool {
    &&& table.len() == 256
    &&& forall|i: int, j: int| 0 <= i < j < 256 ==> table[i] != table[j]
    &&& forall|v: u8| table.contains(v)
}

/// The table and the running byte after the first `steps` steps of the
/// schedule over a non-empty `key`.
///
/// Step `i` adds the entry at `i`, the running byte and the key byte at
/// `i mod key.len()`, modulo 256, and exchanges the entry at `i` with the
/// entry at that sum, which becomes the new running byte.
pub open spec fn schedule(key: Seq<u8>, steps: nat) -> (Seq<u8>, u8)
    decreases steps,
{
    if steps == 0 {
        (identity_table(), 0u8)
    } else {
        let (table, last) = schedule(key, (steps - 1) as nat);
        let i = steps - 1;
        let swap = table[i];
        let next = ((swap + last + key[i % (key.len() as int)]) % 256) as u8;
        (table.update(i, table[next as int]).update(next as int, swap), next)
    }
}

/// The key box of `key`: the table after all 256 steps, or the identity
/// table where `key` is empty.
pub open spec fn key_box_of(key: Seq<u8>) -> Seq<u8> {
    if key.len() == 0 {
        identity_table()
    } else {
        schedule(key, 256).0
    }
}

/// The keystream byte for position `i` of the payload.
pub open spec fn keystream_byte(table: Seq<u8>, i: int) -> u8 {
    let j = (i + 1) % 256;
    let a = table[j];
    let b = table[(a + j) % 256];
    table[(a + b) % 256]
}

proof fn lemma_identity_is_permutation()
    ensures
        is_permutation(identity_table()),
{
    let t = identity_table();
    assert forall|v: u8| t.contains(v) by {
        assert(t[v as int] == v);
    }
}

proof fn lemma_exchange_keeps_permutation(table: Seq<u8>, i: int, n: int)
    requires
        is_permutation(table),
        0 <= i < 256,
        0 <= n < 256,
    ensures
        is_permutation(table.update(i, table[n]).update(n, table[i])),
{
    let after = table.update(i, table[n]).update(n, table[i]);
    assert forall|v: u8| after.contains(v) by {
        assert(table.contains(v));
        let w = choose|w: int| 0 <= w < 256 && table[w] == v;
        let k = if w == i {
            n
        } else if w == n {
            i
        } else {
            w
        };
        assert(after[k] == v);
    }
}

/// Every stage of the schedule is a permutation.
pub proof fn lemma_schedule_is_permutation(key: Seq<u8>, steps: nat)
    requires
        steps <= 256,
    ensures
        is_permutation(schedule(key, steps).0),
    decreases steps,
{
    if steps == 0 {
        lemma_identity_is_permutation();
    } else {
        lemma_schedule_is_permutation(key, (steps - 1) as nat);
        let (table, last) = schedule(key, (steps - 1) as nat);
        let i = steps - 1;
        let next = ((table[i] + last + key[i % (key.len() as int)]) % 256) as u8;
        lemma_exchange_keeps_permutation(table, i, next as int);
    }
}

/// The key box of any key material, empty or not, holds each byte value
/// exactly once.
pub proof fn lemma_key_box_is_permutation(key: Seq<u8>)
    ensures
        is_permutation(key_box_of(key)),
{
    if key.len() == 0 {
        lemma_identity_is_permutation();
    } else {
        lemma_schedule_is_permutation(key, 256);
    }
}

/// A key box. Its table is always a permutation of the byte values.
#[derive(Debug)]
pub struct KeyBox {
    table: [u8; 256],
}

impl View for KeyBox {
    type V = Seq<u8>;

    closed spec fn view(&self) -> Seq<u8> {
        self.table@
    }
}

impl KeyBox {
    #[verifier::type_invariant]
    spec fn well_formed(self) -> bool {
        is_permutation(self.table@)
    }

    /// Schedules the key box of `key`.
    pub fn generate(key: &[u8]) -> (out: KeyBox)
        ensures
            out@ == key_box_of(key@),
            is_permutation(out@),
    {
        let mut table: [u8; 256] = [0u8; 256];
        let mut i: usize = 0;
        while i < KEY_BOX_LEN
            invariant
                i <= 256,
                forall|k: int| 0 <= k < i ==> table@[k] == k as u8,
            decreases 256 - i,
        {
            table[i] = i as u8;
            i += 1;
        }
        assert(table@ =~= identity_table());
        if key.len() > 0 {
            let mut last: u8 = 0;
            let mut key_offset: usize = 0;
            i = 0;
            while i < KEY_BOX_LEN
                invariant
                    i <= 256,
                    key@.len() > 0,
                    key_offset == i as int % (key@.len() as int),
                    table@ == schedule(key@, i as nat).0,
                    last == schedule(key@, i as nat).1,
                decreases 256 - i,
            {
                let swap: u8 = table[i];
                let sum: usize = swap as usize + last as usize + key[key_offset] as usize;
                last = (sum % 256) as u8;
                proof {
                    lemma_next_offset(i as int, key@.len() as int);
                }
                key_offset += 1;
                if key_offset >= key.len() {
                    key_offset = 0;
                }
                table[i] = table[last as usize];
                table[last as usize] = swap;
                i += 1;
            }
        }
        proof {
            lemma_key_box_is_permutation(key@);
        }
        KeyBox { table }
    }

    /// The entry at `index`.
    pub fn entry(&self, index: u8) -> (value: u8)
        ensures
            value == self@[index as int],
    {
        self.table[index as usize]
    }

    /// The table.
    pub fn table(&self) -> (table: &[u8; 256])
        ensures
            table@ == self@,
            is_permutation(table@),
    {
        proof {
            use_type_invariant(self);
        }
        &self.table
    }

    /// The keystream byte for position `position` of the payload.
    pub fn keystream_at(&self, position: usize) -> (byte: u8)
        ensures
            byte == keystream_byte(self@, position as int),
    {
        let j: usize = (position % 256 + 1) % 256;
        let a: usize = self.table[j] as usize;
        let b: usize = self.table[(a + j) % 256] as usize;
        self.table[(a + b) % 256]
    }
}

/// The cyclic key index moves on by one and wraps at the key's length.
proof fn lemma_next_offset(i: int, n: int)
    requires
        0 <= i,
        0 < n,
    ensures
        (i + 1) % n == if i % n + 1 >= n {
            0
        } else {
            i % n + 1
        },
{
    assert((i + 1) % n == if i % n + 1 >= n {
        0
    } else {
        i % n + 1
    }) by (nonlinear_arith)
        requires
            0 <= i,
            0 < n,
    ;
}

} // verus!
