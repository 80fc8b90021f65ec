//! Text building blocks shared by the other modules.

use vstd::prelude::*;
use vstd::string::*;

verus! {

/// `String::push` appends the given character to the end of the string.
pub assume_specification[ String::push ](s: &mut String, c: char)
    ensures
        final(s)@ == old(s)@.push(c),
;

/// The uppercase mapping of a character, as `char::to_uppercase` yields it.
pub uninterp spec fn uppercase_of(c: char) -> Seq<char>;

/// The lowercase mapping of a character, as `char::to_lowercase` yields it.
pub uninterp spec fn lowercase_of(c: char) -> Seq<char>;

/// Calls `char::to_uppercase` and collects the characters it yields. The
/// mapping comes from the Unicode tables of the standard library, so the
/// result is only named here, not spelled out.
#[verifier::external_body]
fn to_uppercase(c: char) -> (r: Vec<char>)
    ensures
        r@ == uppercase_of(c),
{
    c.to_uppercase().collect()
}

/// Calls `char::to_lowercase` and collects the characters it yields. The
/// mapping comes from the Unicode tables of the standard library, so the
/// result is only named here, not spelled out.
#[verifier::external_body]
fn to_lowercase(c: char) -> (r: Vec<char>)
    ensures
        r@ == lowercase_of(c),
{
    c.to_lowercase().collect()
}

/// The uppercase mapping of a character: of a letter from `a` to `z` the
/// letter from `A` to `Z`, of any other ASCII character the character
/// itself, and of any other character what `char::to_uppercase` yields.
pub open spec fn upper_of(c: char) -> Seq<char> {
    if 'a' <= c <= 'z' {
        seq![(c as int - 32) as char]
    } else if (c as int) < 128 {
        seq![c]
    } else {
        uppercase_of(c)
    }
}

/// The lowercase mapping of a character: of a letter from `A` to `Z` the
/// letter from `a` to `z`, of any other ASCII character the character
/// itself, and of any other character what `char::to_lowercase` yields.
pub open spec fn lower_of(c: char) -> Seq<char> {
    if 'A' <= c <= 'Z' {
        seq![(c as int + 32) as char]
    } else if (c as int) < 128 {
        seq![c]
    } else {
        lowercase_of(c)
    }
}

/// The uppercase mapping of a character.
pub fn upper(c: char) -> (r: Vec<char>)
    ensures
        r@ == upper_of(c),
{
    if 'a' <= c && c <= 'z' {
        let mut r: Vec<char> = Vec::new();
        r.push(((c as u8) - 32) as char);
        assert(r@ =~= upper_of(c));
        r
    } else if (c as u32) < 128 {
        let mut r: Vec<char> = Vec::new();
        r.push(c);
        assert(r@ =~= upper_of(c));
        r
    } else {
        to_uppercase(c)
    }
}

/// The lowercase mapping of a character.
pub fn lower(c: char) -> (r: Vec<char>)
    ensures
        r@ == lower_of(c),
{
    if 'A' <= c && c <= 'Z' {
        let mut r: Vec<char> = Vec::new();
        r.push(((c as u8) + 32) as char);
        assert(r@ =~= lower_of(c));
        r
    } else if (c as u32) < 128 {
        let mut r: Vec<char> = Vec::new();
        r.push(c);
        assert(r@ =~= lower_of(c));
        r
    } else {
        to_lowercase(c)
    }
}

/// The views of a sequence of strings.
pub open spec fn views(names: Seq<String>) -> Seq<Seq<char>> {
    names.map_values(|s: String| s@)
}

/// All parts joined end to end.
pub open spec fn concat_all(parts: Seq<Seq<char>>) -> Seq<char>
    decreases parts.len(),
{
    if parts.len() == 0 {
        Seq::empty()
    } else {
        concat_all(parts.drop_last()) + parts.last()
    }
}

/// Joining after a push appends the pushed part.
pub proof fn lemma_concat_all_push(parts: Seq<Seq<char>>, part: Seq<char>)
    ensures
        concat_all(parts.push(part)) == concat_all(parts) + part,
{
    assert(parts.push(part).drop_last() =~= parts);
}

/// The parts joined with `separator` between each two of them.
pub open spec fn joined(parts: Seq<Seq<char>>, separator: Seq<char>) -> Seq<char>
    decreases parts.len(),
{
    if parts.len() == 0 {
        Seq::empty()
    } else if parts.len() == 1 {
        parts[0]
    } else {
        joined(parts.drop_last(), separator) + separator + parts.last()
    }
}

/// Appends the parts to `out`, with `separator` between each two of them.
pub fn push_joined(out: &mut String, parts: &Vec<String>, separator: &str)
    ensures
        final(out)@ == old(out)@ + joined(views(parts@), separator@),
{
    let ghost all = views(parts@);
    let mut i: usize = 0;
    proof {
        assert(all.take(0) =~= Seq::<Seq<char>>::empty());
        assert(out@ =~= old(out)@ + joined(all.take(0), separator@));
    }
    while i < parts.len()
        invariant
            i <= parts.len(),
            all == views(parts@),
            out@ == old(out)@ + joined(all.take(i as int), separator@),
        decreases parts.len() - i,
    {
        let ghost sofar = joined(all.take(i as int), separator@);
        let ghost upto = all.take(i as int + 1);
        proof {
            assert(upto.drop_last() =~= all.take(i as int));
            assert(upto.last() == parts[i as int]@);
        }
        if i > 0 {
            out.append(separator);
        }
        out.append(parts[i].as_str());
        proof {
            if i == 0 {
                assert(sofar =~= Seq::<char>::empty());
                assert(upto[0] == parts[i as int]@);
                assert(out@ =~= old(out)@ + joined(upto, separator@));
            } else {
                assert(joined(upto, separator@) == sofar + separator@ + parts[i as int]@);
                assert(out@ =~= old(out)@ + joined(upto, separator@));
            }
        }
        i += 1;
    }
    proof {
        assert(all.take(i as int) =~= all);
    }
}

/// The character of a decimal digit.
pub open spec fn digit_char(d: nat) -> char
    recommends
        d < 10,
{
    (48 + d) as char
}

/// The decimal numeral of `n`, without leading zeros.
pub open spec fn decimal(n: nat) -> Seq<char>
    decreases n,
{
    if n < 10 {
        seq![digit_char(n)]
    } else {
        decimal(n / 10).push(digit_char(n % 10))
    }
}

/// Appends the decimal numeral of `n` to `out`.
pub fn push_decimal(out: &mut String, n: usize)
    ensures
        final(out)@ == old(out)@ + decimal(n as nat),
    decreases n,
{
    if n >= 10 {
        push_decimal(out, n / 10);
    }
    let d: u8 = (n % 10) as u8;
    out.push((48u8 + d) as char);
    assert(out@ =~= old(out)@ + decimal(n as nat));
}

/// Appends every character of `chars` to `out`, in order.
pub fn push_chars(out: &mut String, chars: &Vec<char>)
    ensures
        final(out)@ == old(out)@ + chars@,
{
    let mut i: usize = 0;
    while i < chars.len()
        invariant
            i <= chars.len(),
            out@ == old(out)@ + chars@.take(i as int),
        decreases chars.len() - i,
    {
        out.push(chars[i]);
        assert(chars@.take(i as int + 1) =~= chars@.take(i as int).push(chars@[i as int]));
        i += 1;
    }
    assert(chars@.take(i as int) =~= chars@);
}

/// Whether two texts hold the same characters.
pub fn same_text(a: &str, b: &str) -> (r: bool)
    ensures
        r == (a@ == b@),
{
    let x = a.to_owned();
    let y = b.to_owned();
    x == y
}

} // verus!
