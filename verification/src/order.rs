//! Lexicographic order of lists.
use vstd::prelude::*;

verus! {

/// -1, 0 or 1: how two numbers compare.
pub open spec fn sign(a: int, b: int) -> int {
    if a < b {
        -1
    } else if a > b {
        1
    } else {
        0
    }
}

/// How two lists compare from a place on: by the first difference; a list that ends
/// first comes first.
pub open spec fn list_sign(a: Seq<int>, b: Seq<int>, place: int) -> int
    decreases a.len() - place,
{
    if place >= a.len() || place >= b.len() {
        sign(a.len() as int, b.len() as int)
    } else if a[place] != b[place] {
        sign(a[place], b[place])
    } else {
        list_sign(a, b, place + 1)
    }
}

/// The codes of a text.
pub open spec fn codes(text: Seq<char>) -> Seq<int> {
    Seq::new(text.len(), |i: int| text[i] as int)
}

/// The values of a list of bytes.
pub open spec fn values(bytes: Seq<u8>) -> Seq<int> {
    Seq::new(bytes.len(), |i: int| bytes[i] as int)
}

pub fn compare_numbers(a: u64, b: u64) -> (order: i8)
    ensures
        order == sign(a as int, b as int),
{
    if a < b {
        -1
    } else if a > b {
        1
    } else {
        0
    }
}

fn compare_chars(a: char, b: char) -> (order: i8)
    ensures
        order == sign(a as int, b as int),
{
    if a < b {
        -1
    } else if a > b {
        1
    } else {
        0
    }
}

pub fn compare_texts(a: &Vec<char>, b: &Vec<char>) -> (order: i8)
    ensures
        order == list_sign(codes(a@), codes(b@), 0),
{
    let mut place: usize = 0;
    while place < a.len() && place < b.len()
        invariant
            place <= a@.len(),
            place <= b@.len(),
            list_sign(codes(a@), codes(b@), place as int) == list_sign(codes(a@), codes(b@), 0),
        decreases a.len() - place,
    {
        let order = compare_chars(a[place], b[place]);
        if order != 0 {
            return order;
        }
        place = place + 1;
    }
    compare_numbers(a.len() as u64, b.len() as u64)
}

pub fn compare_bytes(a: &Vec<u8>, b: &Vec<u8>) -> (order: i8)
    ensures
        order == list_sign(values(a@), values(b@), 0),
{
    let mut place: usize = 0;
    while place < a.len() && place < b.len()
        invariant
            place <= a@.len(),
            place <= b@.len(),
            list_sign(values(a@), values(b@), place as int) == list_sign(
                values(a@),
                values(b@),
                0,
            ),
        decreases a.len() - place,
    {
        let order = compare_numbers(a[place] as u64, b[place] as u64);
        if order != 0 {
            return order;
        }
        place = place + 1;
    }
    compare_numbers(a.len() as u64, b.len() as u64)
}

pub proof fn list_order_is_antisymmetric(a: Seq<int>, b: Seq<int>, place: int)
    ensures
        -1 <= list_sign(a, b, place) <= 1,
        list_sign(b, a, place) == -list_sign(a, b, place),
        list_sign(a, a, place) == 0,
    decreases a.len() + b.len() - place,
{
    if place < a.len() || place < b.len() {
        list_order_is_antisymmetric(a, b, place + 1);
    }
}

pub proof fn equal_lists_are_the_same(a: Seq<int>, b: Seq<int>, place: int)
    requires
        0 <= place,
        list_sign(a, b, place) == 0,
        forall|i: int| 0 <= i < place ==> i < a.len() && i < b.len() && #[trigger] a[i] == b[i],
    ensures
        a == b,
    decreases a.len() - place,
{
    if place < a.len() && place < b.len() {
        equal_lists_are_the_same(a, b, place + 1);
    } else {
        assert(a =~= b);
    }
}

pub proof fn list_order_is_transitive(a: Seq<int>, b: Seq<int>, c: Seq<int>, place: int)
    requires
        place <= a.len(),
        place <= b.len(),
        place <= c.len(),
        list_sign(a, b, place) <= 0,
        list_sign(b, c, place) <= 0,
    ensures
        list_sign(a, c, place) <= 0,
        list_sign(a, c, place) == 0 ==> list_sign(a, b, place) == 0 && list_sign(b, c, place) == 0,
    decreases a.len() - place,
{
    if place < a.len() && place < b.len() && place < c.len() {
        if a[place] == b[place] && b[place] == c[place] {
            list_order_is_transitive(a, b, c, place + 1);
        }
    }
}

/// The first difference decides how two lists compare, and where there is none the shorter
/// list comes first.
pub proof fn the_first_difference_decides(a: Seq<int>, b: Seq<int>, place: int, from: int)
    requires
        0 <= from <= place,
        place <= a.len(),
        place <= b.len(),
        forall|i: int| from <= i < place ==> #[trigger] a[i] == b[i],
    ensures
        place < a.len() && place < b.len() && a[place] < b[place] ==> list_sign(a, b, from) == -1,
        place < a.len() && place < b.len() && a[place] > b[place] ==> list_sign(a, b, from) == 1,
        place == a.len() && a.len() < b.len() ==> list_sign(a, b, from) == -1,
        place == b.len() && b.len() < a.len() ==> list_sign(a, b, from) == 1,
        place == a.len() && a.len() == b.len() ==> list_sign(a, b, from) == 0,
    decreases place - from,
{
    if from < place {
        assert(a[from] == b[from]);
        the_first_difference_decides(a, b, place, from + 1);
    }
}

/// Texts are compared by the codes of their characters, and bytes by their values.
pub proof fn texts_compare_by_code(text: Seq<char>, bytes: Seq<u8>, i: int)
    ensures
        codes(text).len() == text.len(),
        values(bytes).len() == bytes.len(),
        0 <= i < text.len() ==> codes(text)[i] == text[i] as int,
        0 <= i < bytes.len() ==> values(bytes)[i] == bytes[i] as int,
{
}

} // verus!
