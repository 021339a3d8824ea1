//! Keys of stored facts and the generator that issues them.

use vstd::prelude::*;

verus! {

/// Number of distinct sequence values below one clock tick: 2^64.
pub const TICK_SPAN: u128 = 0x1_0000_0000_0000_0000u128;

/// The identifier of one stored fact: 128 bits, ordered by generation time.
#[derive(Clone, Copy, Debug, PartialEq, Eq, Structural)]
pub struct Key {
    pub value: u128,
}

impl View for Key {
    type V = u128;

    open spec fn view(&self) -> u128 {
        self.value
    }
}

/// The smallest key whose time part is `now`.
pub open spec fn tick_floor(now: u64) -> int {
    now as int * TICK_SPAN as int
}

/// The character for one hexadecimal digit, in lower case.
pub open spec fn hex_char(d: nat) -> char {
    if d == 0 {
        '0'
    } else if d == 1 {
        '1'
    } else if d == 2 {
        '2'
    } else if d == 3 {
        '3'
    } else if d == 4 {
        '4'
    } else if d == 5 {
        '5'
    } else if d == 6 {
        '6'
    } else if d == 7 {
        '7'
    } else if d == 8 {
        '8'
    } else if d == 9 {
        '9'
    } else if d == 10 {
        'a'
    } else if d == 11 {
        'b'
    } else if d == 12 {
        'c'
    } else if d == 13 {
        'd'
    } else if d == 14 {
        'e'
    } else {
        'f'
    }
}

/// The last `count` hexadecimal digits of `value`, the highest first.
pub open spec fn hex_group(value: nat, count: nat) -> Seq<char>
    decreases count,
{
    if count == 0 {
        Seq::empty()
    } else {
        hex_group(value / 16, (count - 1) as nat).push(hex_char(value % 16))
    }
}

/// What separates the groups of digits in the text of a key.
pub const GROUP_MARK: &'static str = "-";

/// The text of a key: its 32 hexadecimal digits in groups of 8, 4, 4, 4
/// and 12, the highest first, with a mark between the groups.
pub open spec fn key_text(value: u128) -> Seq<char> {
    hex_group(value as nat / 0x1_0000_0000_0000_0000_0000_0000, 8) + GROUP_MARK@ + hex_group(
        value as nat / 0x1_0000_0000_0000_0000_0000,
        4,
    ) + GROUP_MARK@ + hex_group(value as nat / 0x1_0000_0000_0000_0000, 4) + GROUP_MARK@
        + hex_group(value as nat / 0x1_0000_0000_0000, 4) + GROUP_MARK@ + hex_group(
        value as nat,
        12,
    )
}

fn hex_text(d: u128) -> (s: &'static str)
    requires
        d < 16,
    ensures
        s@ == seq![hex_char(d as nat)],
{
    proof {
        reveal_strlit("0");
        reveal_strlit("1");
        reveal_strlit("2");
        reveal_strlit("3");
        reveal_strlit("4");
        reveal_strlit("5");
        reveal_strlit("6");
        reveal_strlit("7");
        reveal_strlit("8");
        reveal_strlit("9");
        reveal_strlit("a");
        reveal_strlit("b");
        reveal_strlit("c");
        reveal_strlit("d");
        reveal_strlit("e");
        reveal_strlit("f");
    }
    let s = if d == 0 {
        "0"
    } else if d == 1 {
        "1"
    } else if d == 2 {
        "2"
    } else if d == 3 {
        "3"
    } else if d == 4 {
        "4"
    } else if d == 5 {
        "5"
    } else if d == 6 {
        "6"
    } else if d == 7 {
        "7"
    } else if d == 8 {
        "8"
    } else if d == 9 {
        "9"
    } else if d == 10 {
        "a"
    } else if d == 11 {
        "b"
    } else if d == 12 {
        "c"
    } else if d == 13 {
        "d"
    } else if d == 14 {
        "e"
    } else {
        "f"
    };
    assert(s@ =~= seq![hex_char(d as nat)]);
    s
}

/// Adds the last `count` hexadecimal digits of `value` to `text`, the
/// highest first.
fn push_hex_group(text: &mut String, value: u128, count: u32)
    ensures
        final(text)@ == old(text)@ + hex_group(value as nat, count as nat),
    decreases count,
{
    if count == 0 {
        assert(text@ =~= text@ + hex_group(value as nat, 0));
    } else {
        let ghost before = text@;
        push_hex_group(text, value / 16, count - 1);
        text.append(hex_text(value % 16));
        assert(text@ =~= before + hex_group(value as nat, count as nat));
    }
}

impl Key {
    /// The text of the key: 32 hexadecimal digits in five groups.
    pub fn to_text(&self) -> (text: String)
        ensures
            text@ == key_text(self@),
    {
        let mut text = String::new();
        push_hex_group(&mut text, self.value / 0x1_0000_0000_0000_0000_0000_0000, 8);
        text.append(GROUP_MARK);
        push_hex_group(&mut text, self.value / 0x1_0000_0000_0000_0000_0000, 4);
        text.append(GROUP_MARK);
        push_hex_group(&mut text, self.value / 0x1_0000_0000_0000_0000, 4);
        text.append(GROUP_MARK);
        push_hex_group(&mut text, self.value / 0x1_0000_0000_0000, 4);
        text.append(GROUP_MARK);
        push_hex_group(&mut text, self.value, 12);
        assert(text@ =~= key_text(self@));
        text
    }

    /// The key with the given 128-bit value.
    pub fn from_u128(value: u128) -> (key: Key)
        ensures
            key@ == value,
    {
        Key { value }
    }

    /// The 128-bit value of the key.
    pub fn as_u128(&self) -> (value: u128)
        ensures
            value == self@,
    {
        self.value
    }

    /// The clock tick at which the key was issued: its upper 64 bits.
    pub open spec fn spec_ticks(&self) -> int {
        self.value as int / TICK_SPAN as int
    }

    /// The clock tick at which the key was issued.
    pub fn ticks(&self) -> (t: u64)
        ensures
            t as int == self.spec_ticks(),
    {
        let t: u128 = self.value / TICK_SPAN;
        assert(t <= u64::MAX) by {
            assert(self.value as int / 0x1_0000_0000_0000_0000int <= 0xFFFF_FFFF_FFFF_FFFFint);
        }
        t as u64
    }
}

/// Issues keys in strictly increasing order, each no older than the clock
/// reading it was asked for, and none that it was told is in use.
#[derive(Debug)]
pub struct KeyGenerator {
    /// The value of the key issued last, or `None` before the first.
    pub last: Option<u128>,
    /// The keys that it was told are in use without having issued them.
    pub seen: Vec<u128>,
}

/// Where the search for the next key begins at clock reading `now`: at
/// the start of the tick where that lies ahead of the last key issued,
/// else right after that key.
pub open spec fn start_value(last: Option<u128>, now: u64) -> int {
    match last {
        Some(v) if v as int >= tick_floor(now) => v as int + 1,
        _ => tick_floor(now),
    }
}

/// The least value at or above `v` that is not among `seen`; one more
/// than the largest key if every value from `v` on is among them.
pub open spec fn free_from(seen: Seq<u128>, v: int) -> int
    decreases u128::MAX as int + 1 - v,
{
    if 0 <= v <= u128::MAX as int && seen.contains(v as u128) {
        free_from(seen, v + 1)
    } else {
        v
    }
}

/// The value of the next key at clock reading `now`: the first value
/// from the start of the search on that is not known to be in use.
pub open spec fn next_value(last: Option<u128>, seen: Seq<u128>, now: u64) -> int {
    free_from(seen, start_value(last, now))
}

/// Whether `key` lies at or below the bound `last`.
pub open spec fn below(last: Option<u128>, key: u128) -> bool {
    last matches Some(v) && key <= v
}

/// Whether `key` is known to be taken: it was issued, or lies below a
/// key that was, or was seen in use.
pub open spec fn known(last: Option<u128>, seen: Seq<u128>, key: u128) -> bool {
    below(last, key) || seen.contains(key)
}

/// The keys seen once `key` was seen too: it is added unless it is known
/// already.
pub open spec fn noted(last: Option<u128>, seen: Seq<u128>, key: u128) -> Seq<u128> {
    if known(last, seen, key) {
        seen
    } else {
        seen.push(key)
    }
}

/// The keys seen once every key of `keys` was seen too.
pub open spec fn noted_all(last: Option<u128>, seen: Seq<u128>, keys: Seq<u128>) -> Seq<u128>
    decreases keys.len(),
{
    if keys.len() == 0 {
        seen
    } else {
        noted(last, noted_all(last, seen, keys.drop_last()), keys.last())
    }
}

/// The search for a free value goes up from where it begins, ends at a
/// value that was not seen, and passes over seen values only. So it ends
/// at or below any value from its start on that was not seen.
pub proof fn lemma_free_from(seen: Seq<u128>, v: int)
    requires
        0 <= v <= u128::MAX as int + 1,
    ensures
        v <= free_from(seen, v) <= u128::MAX as int + 1,
        free_from(seen, v) <= u128::MAX as int ==> !seen.contains(free_from(seen, v) as u128),
        forall|w: int| v <= w < free_from(seen, v) ==> seen.contains(#[trigger] (w as u128)),
        forall|w: u128| v <= w && !seen.contains(w) ==> free_from(seen, v) <= w,
    decreases u128::MAX as int + 1 - v,
{
    if v <= u128::MAX as int && seen.contains(v as u128) {
        lemma_free_from(seen, v + 1);
        assert forall|w: int| v <= w < free_from(seen, v) implies seen.contains(
            #[trigger] (w as u128),
        ) by {
            if w == v {
            }
        }
    }
    assert forall|w: u128| v <= w && !seen.contains(w) implies free_from(seen, v) <= w by {
        if free_from(seen, v) > w {
            assert(seen.contains((w as int) as u128));
        }
    }
}

/// The search ends within as many steps as keys were seen: of the values
/// from its start on, one more than there are seen keys cannot all have
/// been seen.
pub proof fn lemma_free_within(seen: Seq<u128>, v: int)
    requires
        0 <= v,
        v + seen.len() <= u128::MAX as int,
    ensures
        free_from(seen, v) <= v + seen.len(),
{
    lemma_free_from(seen, v);
    if free_from(seen, v) > v + seen.len() {
        let ints = seen.map_values(|k: u128| k as int);
        let range = vstd::set_lib::set_int_range(v, v + seen.len() + 1);
        assert forall|w: int| range.contains(w) implies ints.to_set().contains(w) by {
            assert(seen.contains(w as u128));
            let i = choose|i: int| 0 <= i < seen.len() && seen[i] == w as u128;
            assert(ints[i] == w);
        }
        vstd::set_lib::lemma_int_range(v, v + seen.len() + 1);
        vstd::seq_lib::seq_to_set_is_finite(ints);
        vstd::set_lib::lemma_len_subset(range, ints.to_set());
        ints.lemma_cardinality_of_set();
    }
}

/// Once a key was noted it is known, whatever was known stays known,
/// and nothing else has become known.
pub proof fn lemma_noted(last: Option<u128>, seen: Seq<u128>, key: u128)
    ensures
        known(last, noted(last, seen, key), key),
        forall|k: u128| known(last, seen, k) ==> known(last, noted(last, seen, key), k),
        forall|k: u128| known(last, noted(last, seen, key), k) ==> known(last, seen, k) || k == key,
{
    let after = noted(last, seen, key);
    if after != seen {
        assert(after[after.len() - 1] == key);
        assert forall|k: u128| seen.contains(k) implies after.contains(k) by {
            let i = choose|i: int| 0 <= i < seen.len() && seen[i] == k;
            assert(after[i] == k);
        }
        assert forall|k: u128| after.contains(k) implies seen.contains(k) || k == key by {
            let i = choose|i: int| 0 <= i < after.len() && after[i] == k;
            if i < seen.len() {
                assert(seen[i] == k);
            }
        }
    }
}

/// Once keys were noted, each of them is known, whatever was known stays
/// known, and nothing else has become known. Noting keys that are known
/// already changes nothing.
pub proof fn lemma_noted_all(last: Option<u128>, seen: Seq<u128>, keys: Seq<u128>)
    ensures
        forall|i: int|
            0 <= i < keys.len() ==> known(last, noted_all(last, seen, keys), #[trigger] keys[i]),
        forall|k: u128| known(last, seen, k) ==> known(last, noted_all(last, seen, keys), k),
        forall|k: u128|
            known(last, noted_all(last, seen, keys), k) ==> known(last, seen, k) || keys.contains(
                k,
            ),
        (forall|i: int| 0 <= i < keys.len() ==> known(last, seen, #[trigger] keys[i]))
            ==> noted_all(last, seen, keys) == seen,
    decreases keys.len(),
{
    if keys.len() > 0 {
        let front = keys.drop_last();
        let before = noted_all(last, seen, front);
        let after = noted_all(last, seen, keys);
        lemma_noted_all(last, seen, front);
        assert(after == noted(last, before, keys.last()));
        assert forall|k: u128| before.contains(k) implies after.contains(k) by {
            if after != before {
                let i = choose|i: int| 0 <= i < before.len() && before[i] == k;
                assert(after[i] == k);
            }
        }
        assert(known(last, after, keys.last())) by {
            if after != before {
                assert(after[after.len() - 1] == keys.last());
            }
        }
        assert forall|i: int| 0 <= i < keys.len() implies known(last, after, #[trigger] keys[i]) by {
            if i < keys.len() - 1 {
                assert(front[i] == keys[i]);
            }
        }
        assert forall|k: u128| known(last, after, k) implies known(last, seen, k) || keys.contains(
            k,
        ) by {
            if after.contains(k) && !before.contains(k) {
                let i = choose|i: int| 0 <= i < after.len() && after[i] == k;
                if i < before.len() {
                    assert(before[i] == k);
                }
                assert(keys[keys.len() - 1] == k);
            } else if before.contains(k) {
                if front.contains(k) {
                    let j = choose|j: int| 0 <= j < front.len() && front[j] == k;
                    assert(keys[j] == k);
                }
            }
        }
        if forall|i: int| 0 <= i < keys.len() ==> known(last, seen, #[trigger] keys[i]) {
            assert forall|i: int| 0 <= i < front.len() implies known(
                last,
                seen,
                #[trigger] front[i],
            ) by {
                assert(front[i] == keys[i]);
            }
            assert(keys[keys.len() - 1] == keys.last());
        }
    }
}

impl KeyGenerator {
    /// A generator that has issued nothing and seen nothing.
    pub fn new() -> (g: KeyGenerator)
        ensures
            g.last is None,
            g.seen@ == Seq::<u128>::empty(),
    {
        KeyGenerator { last: None, seen: Vec::new() }
    }

    /// Whether `key` lies above everything issued so far.
    pub open spec fn is_fresh(&self, key: u128) -> bool {
        match self.last {
            Some(v) => v < key,
            None => true,
        }
    }

    /// Whether a further key can be issued at clock reading `now`: some
    /// value from the start of the search on is not known to be in use.
    pub open spec fn can_issue(&self, now: u64) -> bool {
        next_value(self.last, self.seen@, now) <= u128::MAX as int
    }

    /// Whether `value` is among the keys that were seen.
    pub fn has_seen(&self, value: u128) -> (b: bool)
        ensures
            b == self.seen@.contains(value),
    {
        let mut i: usize = 0;
        while i < self.seen.len()
            invariant
                i <= self.seen.len(),
                forall|j: int| 0 <= j < i ==> self.seen@[j] != value,
            decreases self.seen.len() - i,
        {
            if self.seen[i] == value {
                return true;
            }
            i = i + 1;
        }
        false
    }

    /// Takes note of a key that is in use, so that it is never issued.
    /// The keys that were issued are not touched: a key that is seen
    /// holds back itself alone, not the keys below it.
    pub fn note(&mut self, key: Key)
        ensures
            final(self).last == old(self).last,
            final(self).seen@ == noted(old(self).last, old(self).seen@, key@),
    {
        let low = match self.last {
            Some(v) => key.value <= v,
            None => false,
        };
        if !low && !self.has_seen(key.value) {
            self.seen.push(key.value);
        }
    }

    /// Issues the next key for clock reading `now`: the first value from
    /// the start of the tick on, and above the last key issued, that was
    /// not seen in use. The only failure is the end of the key space,
    /// where every such value up to the largest is taken; it leaves the
    /// generator as it was.
    pub fn issue(&mut self, now: u64) -> (issued: Option<Key>)
        ensures
            old(self).can_issue(now) ==> issued is Some,
            !old(self).can_issue(now) ==> issued is None && final(self).last == old(self).last,
            final(self).seen@ == old(self).seen@,
            issued matches Some(key) ==> {
                &&& key@ as int == next_value(old(self).last, old(self).seen@, now)
                &&& old(self).is_fresh(key@)
                &&& !old(self).seen@.contains(key@)
                &&& key@ as int >= tick_floor(now)
                &&& final(self).last == Some(key@)
            },
    {
        let floor: u128 = (now as u128) * TICK_SPAN;
        let mut value: u128 = match self.last {
            Some(v) if v >= floor => {
                if v == u128::MAX {
                    assert(free_from(self.seen@, v as int + 1) == v as int + 1);
                    return None;
                }
                v + 1
            },
            _ => floor,
        };
        let ghost start = value as int;
        proof {
            lemma_free_from(self.seen@, start);
        }
        let mut taken = self.has_seen(value);
        while taken
            invariant
                start == start_value(self.last, now),
                start <= value,
                self.last == old(self).last,
                self.seen@ == old(self).seen@,
                taken == self.seen@.contains(value),
                free_from(self.seen@, value as int) == free_from(self.seen@, start),
            decreases u128::MAX - value,
        {
            if value == u128::MAX {
                assert(free_from(self.seen@, value as int + 1) == value as int + 1);
                return None;
            }
            value = value + 1;
            taken = self.has_seen(value);
        }
        assert(free_from(self.seen@, value as int) == value as int);
        self.last = Some(value);
        Some(Key { value })
    }
}

} // verus!
