//! Framing of droplet trigger names, `droplet:x,y`: the prefix is checked and
//! the two coordinate fields are cut out. Reading the fields as numbers is
//! left to the caller.

use vstd::prelude::*;

verus! {

/// The byte `,` that separates the coordinate fields.
pub const COMMA: u8 = 44;

/// Length in bytes of the prefix `droplet:`.
pub const DROPLET_PREFIX_LEN: usize = 8;

/// The prefix `droplet:` as bytes.
pub open spec fn droplet_prefix() -> Seq<u8> {
    seq![100u8, 114u8, 111u8, 112u8, 108u8, 101u8, 116u8, 58u8]
}

/// Byte `i` of the prefix `droplet:`.
fn droplet_prefix_byte(i: usize) -> (b: u8)
    requires
        i < DROPLET_PREFIX_LEN,
    ensures
        b == droplet_prefix()[i as int],
{
    match i {
        0 => 100,
        1 => 114,
        2 => 111,
        3 => 112,
        4 => 108,
        5 => 101,
        6 => 116,
        _ => 58,
    }
}

/// Whether the name starts with `droplet:`.
pub open spec fn has_droplet_prefix(name: Seq<u8>) -> bool {
    name.len() >= 8 && name.take(8) == droplet_prefix()
}

/// `i` is where the first field of `s` ends: at the first comma, or at the
/// end of `s` when it has none.
pub open spec fn is_field_end(s: Seq<u8>, i: int) -> bool {
    &&& 0 <= i <= s.len()
    &&& (i == s.len() || s[i] == COMMA)
    &&& forall|j: int| 0 <= j < i ==> s[j] != COMMA
}

/// Where the first field of `s` ends.
pub open spec fn field_end(s: Seq<u8>) -> int {
    choose|i: int| is_field_end(s, i)
}

/// What splitting a trigger name gives: `None` unless the name starts with
/// `droplet:` and the rest holds a comma; else the text before the first
/// comma, and the text between the first comma and the next comma (or the
/// end). Anything after a second comma is ignored.
pub open spec fn spec_split_droplet_trigger(name: Seq<u8>) -> Option<(Seq<u8>, Seq<u8>)> {
    if !has_droplet_prefix(name) {
        None
    } else {
        let rest = name.skip(8);
        let e1 = field_end(rest);
        if e1 == rest.len() {
            None
        } else {
            let tail = rest.skip(e1 + 1);
            Some((rest.take(e1), tail.take(field_end(tail))))
        }
    }
}

/// The end of the field of `s` that starts at `start`, and proof that it
/// is the field end of `s.skip(start)`.
fn find_field_end(s: &[u8], start: usize) -> (r: usize)
    requires
        start <= s@.len(),
    ensures
        start <= r <= s@.len(),
        is_field_end(s@.skip(start as int), r - start),
        field_end(s@.skip(start as int)) == r - start,
{
    let mut i = start;
    while i < s.len()
        invariant
            start <= i <= s@.len(),
            forall|j: int| start <= j < i ==> s@[j] != COMMA,
        ensures
            start <= i <= s@.len(),
            forall|j: int| start <= j < i ==> s@[j] != COMMA,
            i < s@.len() ==> s@[i as int] == COMMA,
        decreases s@.len() - i,
    {
        if s[i] == COMMA {
            break;
        }
        i = i + 1;
    }
    let ghost rest = s@.skip(start as int);
    assert(is_field_end(rest, i - start));
    assert forall|k: int| is_field_end(rest, k) implies k == i - start by {
        if k < i - start {
            assert(rest[k] != COMMA);
        }
        if k > i - start {
            assert(rest[i - start] != COMMA);
        }
    }
    i
}

/// Copy `s[from..to]`.
fn copy_range(s: &[u8], from: usize, to: usize) -> (r: Vec<u8>)
    requires
        from <= to <= s@.len(),
    ensures
        r@ == s@.subrange(from as int, to as int),
{
    let mut r: Vec<u8> = Vec::new();
    let mut i = from;
    while i < to
        invariant
            from <= i <= to <= s@.len(),
            r@ == s@.subrange(from as int, i as int),
        decreases to - i,
    {
        r.push(s[i]);
        assert(s@.subrange(from as int, i + 1) =~= s@.subrange(from as int, i as int).push(s@[i as int]));
        i = i + 1;
    }
    r
}

/// Split a trigger name of the form `droplet:x,y` into its two coordinate
/// fields `x` and `y`, as bytes. Gives `None` when the name does not start
/// with `droplet:` or has no comma after it.
pub fn split_droplet_trigger(name: &[u8]) -> (r: Option<(Vec<u8>, Vec<u8>)>)
    ensures
        r is None <==> spec_split_droplet_trigger(name@) is None,
        r matches Some(fields) ==> spec_split_droplet_trigger(name@) == Some((fields.0@, fields.1@)),
{
    if name.len() < DROPLET_PREFIX_LEN {
        return None;
    }
    let mut i: usize = 0;
    while i < DROPLET_PREFIX_LEN
        invariant
            name@.len() >= 8,
            i <= 8,
            forall|j: int| 0 <= j < i ==> name@[j] == droplet_prefix()[j],
        decreases 8 - i,
    {
        if name[i] != droplet_prefix_byte(i) {
            assert(name@.take(8)[i as int] != droplet_prefix()[i as int]);
            return None;
        }
        i = i + 1;
    }
    assert(name@.take(8) =~= droplet_prefix());
    let ghost rest = name@.skip(8);
    let e1 = find_field_end(name, DROPLET_PREFIX_LEN);
    if e1 == name.len() {
        return None;
    }
    let e2 = find_field_end(name, e1 + 1);
    let x = copy_range(name, DROPLET_PREFIX_LEN, e1);
    let y = copy_range(name, e1 + 1, e2);
    proof {
        let tail = rest.skip(e1 - 8 + 1);
        assert(tail =~= name@.skip(e1 + 1));
        assert(x@ =~= rest.take(e1 - 8));
        assert(y@ =~= tail.take(e2 - (e1 + 1)));
    }
    Some((x, y))
}

} // verus!

verus! {

/// The field end of `s` is the only position that is one.
proof fn lemma_field_end_is(s: Seq<u8>, i: int)
    requires
        is_field_end(s, i),
    ensures
        field_end(s) == i,
{
    let k = field_end(s);
    assert(is_field_end(s, k));
    if k < i {
        assert(s[k] != COMMA);
    }
    if i < k {
        assert(s[i] != COMMA);
    }
}

/// Whether `s` holds no comma.
pub open spec fn comma_free(s: Seq<u8>) -> bool {
    forall|j: int| 0 <= j < s.len() ==> s[j] != COMMA
}

/// A name built the way clients build it, `droplet:` then the `x` field, a
/// comma and the `y` field, splits back into exactly those two fields when
/// neither holds a comma.
pub proof fn lemma_split_roundtrip(x: Seq<u8>, y: Seq<u8>)
    requires
        comma_free(x),
        comma_free(y),
    ensures
        spec_split_droplet_trigger(droplet_prefix() + x + seq![COMMA] + y) == Some((x, y)),
{
    let name = droplet_prefix() + x + seq![COMMA] + y;
    assert(name.take(8) =~= droplet_prefix());
    let rest = name.skip(8);
    assert(rest =~= x + seq![COMMA] + y);
    assert(is_field_end(rest, x.len() as int));
    lemma_field_end_is(rest, x.len() as int);
    let tail = rest.skip(x.len() as int + 1);
    assert(tail =~= y);
    assert(is_field_end(tail, y.len() as int));
    lemma_field_end_is(tail, y.len() as int);
    assert(rest.take(x.len() as int) =~= x);
    assert(tail.take(y.len() as int) =~= y);
}

/// A name without the `droplet:` prefix, or without a comma after it, gives
/// no coordinates.
pub proof fn lemma_split_needs_prefix_and_comma(name: Seq<u8>)
    ensures
        !has_droplet_prefix(name) ==> spec_split_droplet_trigger(name) is None,
        has_droplet_prefix(name) && comma_free(name.skip(8)) ==> spec_split_droplet_trigger(name) is None,
{
    if has_droplet_prefix(name) && comma_free(name.skip(8)) {
        let rest = name.skip(8);
        assert(is_field_end(rest, rest.len() as int));
        lemma_field_end_is(rest, rest.len() as int);
    }
}

} // verus!
