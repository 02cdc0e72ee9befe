//! Lexical utilities: ASCII case conversion between snake_case and CamelCase,
//! capitalization, and the reserved-word test used for keyword collisions.

use vstd::prelude::*;

verus! {

/// A byte is an ASCII lowercase letter.
pub open spec fn is_lower_byte(b: u8) -> bool {
    'a' as u8 <= b <= 'z' as u8
}

/// A byte is an ASCII uppercase letter.
pub open spec fn is_upper_byte(b: u8) -> bool {
    'A' as u8 <= b <= 'Z' as u8
}

/// Uppercase an ASCII letter; any other byte is unchanged.
pub open spec fn upper_byte(b: u8) -> u8 {
    if is_lower_byte(b) {
        (b - 32) as u8
    } else {
        b
    }
}

/// Lowercase an ASCII letter; any other byte is unchanged.
pub open spec fn lower_byte(b: u8) -> u8 {
    if is_upper_byte(b) {
        (b + 32) as u8
    } else {
        b
    }
}

/// The identifier with its first byte uppercased; empty input is unchanged.
pub open spec fn capitalized(s: Seq<u8>) -> Seq<u8> {
    if s.len() == 0 {
        s
    } else {
        seq![upper_byte(s[0])] + s.drop_first()
    }
}

/// Snake-to-camel conversion: underscores are dropped, and each byte that
/// begins a segment (the first byte, or one following an underscore) is
/// uppercased. `boundary` says whether the next byte begins a segment.
pub open spec fn snake_to_camel_seq(s: Seq<u8>, boundary: bool) -> Seq<u8>
    decreases s.len(),
{
    if s.len() == 0 {
        Seq::empty()
    } else if s[0] == '_' as u8 {
        snake_to_camel_seq(s.drop_first(), true)
    } else if boundary {
        seq![upper_byte(s[0])] + snake_to_camel_seq(s.drop_first(), false)
    } else {
        seq![s[0]] + snake_to_camel_seq(s.drop_first(), false)
    }
}

/// Camel-to-snake conversion: each uppercase letter starts a new lowercase
/// segment, segments are joined with underscores, and the leading empty
/// segment of an input that starts uppercase is dropped. `at_start` says
/// whether nothing has been emitted yet.
pub open spec fn camel_to_snake_seq(s: Seq<u8>, at_start: bool) -> Seq<u8>
    decreases s.len(),
{
    if s.len() == 0 {
        Seq::empty()
    } else if is_upper_byte(s[0]) {
        (if at_start {
            seq![lower_byte(s[0])]
        } else {
            seq!['_' as u8, lower_byte(s[0])]
        }) + camel_to_snake_seq(s.drop_first(), false)
    } else {
        seq![s[0]] + camel_to_snake_seq(s.drop_first(), false)
    }
}

/// A well-formed snake_case identifier: non-empty, ASCII lowercase letters
/// and underscores only, with no leading, trailing, or doubled underscore.
pub open spec fn snake_ident(s: Seq<u8>) -> bool {
    &&& s.len() > 0
    &&& forall|i: int| 0 <= i < s.len() ==> is_lower_byte(s[i]) || s[i] == '_' as u8
    &&& s[0] != '_' as u8
    &&& s[s.len() - 1] != '_' as u8
    &&& forall|i: int| #![trigger s[i]] 0 <= i < s.len() - 1 ==> !(s[i] == '_' as u8 && s[i + 1] == '_' as u8)
}

proof fn lemma_round_trip_tail(t: Seq<u8>)
    requires
        forall|i: int| 0 <= i < t.len() ==> is_lower_byte(t[i]) || t[i] == '_' as u8,
        t.len() > 0 ==> t[t.len() - 1] != '_' as u8,
        forall|i: int| #![trigger t[i]] 0 <= i < t.len() - 1 ==> !(t[i] == '_' as u8 && t[i + 1]
            == '_' as u8),
    ensures
        camel_to_snake_seq(snake_to_camel_seq(t, false), false) == t,
        t.len() > 0 && t[0] != '_' as u8 ==> camel_to_snake_seq(
            snake_to_camel_seq(t, true),
            true,
        ) == t,
    decreases t.len(),
{
    if t.len() == 0 {
    } else if t[0] != '_' as u8 {
        let c = t[0];
        let r = t.drop_first();
        lemma_round_trip_tail(r);
        let x = snake_to_camel_seq(r, false);
        assert((seq![c] + x).drop_first() =~= x);
        assert(camel_to_snake_seq(seq![c] + x, false) =~= t);
        let y = seq![upper_byte(c)] + x;
        assert(y.drop_first() =~= x);
        assert(camel_to_snake_seq(y, true) =~= t);
    } else {
        // t starts with an underscore; the segment rules give it a
        // lowercase successor.
        let r = t.drop_first();
        assert(t.len() >= 2) by {
            assert(t[t.len() - 1] != '_' as u8);
        }
        assert(r[0] == t[1]);
        assert(t[1] != '_' as u8);
        let r2 = r.drop_first();
        lemma_round_trip_tail(r2);
        let x = snake_to_camel_seq(r2, false);
        assert(snake_to_camel_seq(t, false) == snake_to_camel_seq(r, true));
        assert(snake_to_camel_seq(r, true) == seq![upper_byte(r[0])] + x);
        let y = seq![upper_byte(r[0])] + x;
        assert(y.drop_first() =~= x);
        assert(camel_to_snake_seq(y, false) =~= t);
    }
}

/// Round-trip law: converting a well-formed snake_case identifier to camel
/// case and back returns the original identifier.
pub proof fn lemma_camel_snake_round_trip(s: Seq<u8>)
    requires
        snake_ident(s),
    ensures
        camel_to_snake_seq(snake_to_camel_seq(s, true), true) == s,
{
    lemma_round_trip_tail(s);
}

/// Uppercases an ASCII letter at run time.
pub fn upper_byte_exec(b: u8) -> (r: u8)
    ensures
        r == upper_byte(b),
{
    if 'a' as u8 <= b && b <= 'z' as u8 {
        b - 32
    } else {
        b
    }
}

/// Lowercases an ASCII letter at run time.
pub fn lower_byte_exec(b: u8) -> (r: u8)
    ensures
        r == lower_byte(b),
{
    if 'A' as u8 <= b && b <= 'Z' as u8 {
        b + 32
    } else {
        b
    }
}

/// Uppercases the first character of a textual identifier.
/// Callers must guarantee a non-empty input.
pub fn capitalize_first_char(input: &Vec<u8>) -> (r: Vec<u8>)
    requires
        input@.len() > 0,
    ensures
        r@ == capitalized(input@),
{
    let mut r: Vec<u8> = Vec::new();
    r.push(upper_byte_exec(input[0]));
    let mut i: usize = 1;
    while i < input.len()
        invariant
            1 <= i <= input@.len(),
            r@.len() == i,
            r@[0] == upper_byte(input@[0]),
            forall|j: int| 1 <= j < i ==> r@[j] == input@[j],
        decreases input@.len() - i,
    {
        r.push(input[i]);
        i = i + 1;
    }
    assert(r@ =~= capitalized(input@));
    r
}

/// Splits on underscores, capitalizes each segment, and concatenates.
/// Total: any byte sequence is accepted.
pub fn snake_to_camel(s: &Vec<u8>) -> (r: Vec<u8>)
    ensures
        r@ == snake_to_camel_seq(s@, true),
{
    let mut out: Vec<u8> = Vec::new();
    let mut boundary = true;
    let mut i: usize = 0;
    proof {
        assert(s@.skip(0) =~= s@);
        assert(Seq::<u8>::empty() + snake_to_camel_seq(s@, true) =~= snake_to_camel_seq(s@, true));
    }
    while i < s.len()
        invariant
            0 <= i <= s@.len(),
            snake_to_camel_seq(s@, true) == out@ + snake_to_camel_seq(s@.skip(i as int), boundary),
        decreases s@.len() - i,
    {
        let b = s[i];
        proof {
            assert(s@.skip(i as int).drop_first() =~= s@.skip(i as int + 1));
            assert(s@.skip(i as int)[0] == s@[i as int]);
        }
        if b == '_' as u8 {
            boundary = true;
        } else if boundary {
            out.push(upper_byte_exec(b));
            boundary = false;
        } else {
            out.push(b);
            boundary = false;
        }
        i = i + 1;
    }
    proof {
        assert(s@.skip(s@.len() as int) =~= Seq::<u8>::empty());
        assert(out@ + Seq::<u8>::empty() =~= out@);
    }
    out
}

/// Scans for uppercase letters, starting a new lowercase segment at each,
/// joining segments with underscores. Total: any byte sequence is accepted.
pub fn camel_to_snake(s: &Vec<u8>) -> (r: Vec<u8>)
    ensures
        r@ == camel_to_snake_seq(s@, true),
{
    let mut out: Vec<u8> = Vec::new();
    let mut at_start = true;
    let mut i: usize = 0;
    proof {
        assert(s@.skip(0) =~= s@);
        assert(Seq::<u8>::empty() + camel_to_snake_seq(s@, true) =~= camel_to_snake_seq(s@, true));
    }
    while i < s.len()
        invariant
            0 <= i <= s@.len(),
            camel_to_snake_seq(s@, true) == out@ + camel_to_snake_seq(s@.skip(i as int), at_start),
        decreases s@.len() - i,
    {
        let b = s[i];
        proof {
            assert(s@.skip(i as int).drop_first() =~= s@.skip(i as int + 1));
            assert(s@.skip(i as int)[0] == s@[i as int]);
        }
        if 'A' as u8 <= b && b <= 'Z' as u8 {
            if !at_start {
                out.push('_' as u8);
            }
            out.push(lower_byte_exec(b));
        } else {
            out.push(b);
        }
        at_start = false;
        i = i + 1;
    }
    proof {
        assert(s@.skip(s@.len() as int) =~= Seq::<u8>::empty());
        assert(out@ + Seq::<u8>::empty() =~= out@);
    }
    out
}

} // verus!
