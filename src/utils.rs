use vstd::prelude::*;
use vstd::string::StrSliceExecFns;

verus! {

/// The position of a wave phase on the timeline: two slots per wave, the
/// late phase after the early one.
pub open spec fn time_value(wave: int, late: bool) -> int {
    wave * 2 + if late { 1int } else { 0int }
}

/// Timeline key of `(wave, late)`; the key must fit in an `i32`.
pub fn get_time_value(wave: i32, late: bool) -> (r: i32)
    requires
        i32::MIN <= time_value(wave as int, late) <= i32::MAX,
    ensures
        r as int == time_value(wave as int, late),
{
    wave * 2 + if late { 1 } else { 0 }
}

/// Directory that relative asset paths are resolved against.
pub open spec fn maps_dir() -> Seq<char> {
    seq!['m', 'a', 'p', 's', '/']
}

/// `p` if it already starts with `maps/`, else `p` under `maps/`.
pub open spec fn fixed_path(p: Seq<char>) -> Seq<char> {
    if p.len() >= 5 && p.take(5) == maps_dir() {
        p
    } else {
        maps_dir() + p
    }
}

/// Relies on String::push_str: appends the characters of `tail` to `s`.
#[verifier::external_body]
fn append_str(s: &mut String, tail: &str)
    ensures
        final(s)@ == old(s)@ + tail@,
{
    s.push_str(tail)
}

/// Resolves an asset path against the `maps/` directory.
pub fn fix_path(p: &str) -> (r: String)
    ensures
        r@ == fixed_path(p@),
{
    let prefix: &str = "maps/";
    proof {
        reveal_strlit("maps/");
    }
    assert(prefix@ =~= maps_dir());
    let n = p.unicode_len();
    let mut has_prefix = n >= 5;
    let mut i: usize = 0;
    while has_prefix && i < 5
        invariant
            n == p@.len(),
            i <= 5,
            prefix@ == maps_dir(),
            has_prefix ==> n >= 5 && forall|j: int| 0 <= j < i ==> p@[j] == maps_dir()[j],
            !has_prefix ==> !(p@.len() >= 5 && p@.take(5) == maps_dir()),
        decreases 5 - i + if has_prefix { 1int } else { 0int },
    {
        if p.get_char(i) != prefix.get_char(i) {
            has_prefix = false;
            assert(p@.take(5)[i as int] != maps_dir()[i as int]);
        }
        i += 1;
    }
    if has_prefix {
        assert(p@.take(5) =~= maps_dir());
        p.to_owned()
    } else {
        let mut r = prefix.to_owned();
        append_str(&mut r, p);
        r
    }
}

/// Display color, unmultiplied RGBA, of an elevation code.
pub open spec fn layer_color(val: i8) -> [u8; 4] {
    if val == -1 {
        [255, 0, 0, 100]
    } else if val == 0 {
        [0, 255, 0, 40]
    } else if val == 1 {
        [255, 255, 0, 100]
    } else if val == 2 {
        [0, 150, 255, 100]
    } else if val == 3 {
        [150, 0, 255, 100]
    } else {
        [0, 0, 0, 0]
    }
}

/// Display color, unmultiplied RGBA, of an elevation code; codes outside
/// `-1..=3` are transparent.
pub fn get_layer_color(val: i8) -> (r: [u8; 4])
    ensures
        r == layer_color(val),
{
    match val {
        -1 => [255, 0, 0, 100],
        0 => [0, 255, 0, 40],
        1 => [255, 255, 0, 100],
        2 => [0, 150, 255, 100],
        3 => [150, 0, 255, 100],
        _ => [0, 0, 0, 0],
    }
}

} // verus!
