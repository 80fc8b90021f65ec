//! Identifier normalisation: host identifiers are written with words
//! separated by underscores, the schema language wants camel case.

use vstd::prelude::*;
use vstd::string::*;
use crate::text::{concat_all, lemma_concat_all_push, lower, lower_of, push_chars, upper,
    upper_of, views};

verus! {

/// The words of an identifier: the pieces between its underscores. An
/// identifier with `k` underscores has `k + 1` words, some of which may be
/// empty.
pub open spec fn words(ident: Seq<char>) -> Seq<Seq<char>>
    decreases ident.len(),
{
    if ident.len() == 0 {
        seq![Seq::empty()]
    } else {
        let before = words(ident.drop_last());
        if ident.last() == '_' {
            before.push(Seq::empty())
        } else {
            before.drop_last().push(before.last().push(ident.last()))
        }
    }
}

/// The word with its first character replaced by `initial`. The empty word
/// stays empty.
pub open spec fn with_initial(word: Seq<char>, initial: Seq<char>) -> Seq<char> {
    if word.len() == 0 {
        word
    } else {
        initial + word.drop_first()
    }
}

/// The word with its first character replaced by that character's uppercase
/// mapping. The empty word stays empty.
pub open spec fn capitalize(word: Seq<char>) -> Seq<char> {
    if word.len() == 0 {
        word
    } else {
        with_initial(word, upper_of(word[0]))
    }
}

/// The word with its first character replaced by that character's lowercase
/// mapping. The empty word stays empty.
pub open spec fn decapitalize(word: Seq<char>) -> Seq<char> {
    if word.len() == 0 {
        word
    } else {
        with_initial(word, lower_of(word[0]))
    }
}

/// The words of an identifier as a type name has them: each capitalised.
pub open spec fn pascal_words(ident: Seq<char>) -> Seq<Seq<char>> {
    let w = words(ident);
    Seq::new(w.len(), |i: int| capitalize(w[i]))
}

/// Upper camel case: every word capitalised, the words joined.
pub open spec fn pascal_name_of(ident: Seq<char>) -> Seq<char> {
    concat_all(pascal_words(ident))
}

/// The words of an identifier as a member name has them: the first one
/// decapitalised, the others capitalised.
pub open spec fn camel_words(ident: Seq<char>) -> Seq<Seq<char>> {
    let w = words(ident);
    Seq::new(
        w.len(),
        |i: int|
            if i == 0 {
                decapitalize(w[i])
            } else {
                capitalize(w[i])
            },
    )
}

/// Lower camel case: the first word decapitalised, every later word
/// capitalised, the words joined.
pub open spec fn camel_name_of(ident: Seq<char>) -> Seq<char> {
    concat_all(camel_words(ident))
}

/// Every identifier has at least one word.
pub proof fn lemma_words_nonempty(ident: Seq<char>)
    ensures
        words(ident).len() >= 1,
    decreases ident.len(),
{
    if ident.len() > 0 {
        lemma_words_nonempty(ident.drop_last());
    }
}

/// One more underscore opens a new, empty word.
pub proof fn lemma_words_separator(ident: Seq<char>)
    ensures
        words(ident.push('_')) == words(ident).push(Seq::empty()),
{
    assert(ident.push('_').drop_last() =~= ident);
}

/// One more character other than an underscore extends the last word.
pub proof fn lemma_words_extend(ident: Seq<char>, c: char)
    requires
        c != '_',
    ensures
        words(ident).len() >= 1,
        words(ident.push(c)) == words(ident).drop_last().push(words(ident).last().push(c)),
{
    lemma_words_nonempty(ident);
    assert(ident.push(c).drop_last() =~= ident);
}

/// Splits an identifier at its underscores. The result holds the pieces
/// between them, in order, the empty ones too.
pub fn split_words(ident: &str) -> (r: Vec<String>)
    ensures
        views(r@) == words(ident@),
{
    let mut done: Vec<String> = Vec::new();
    let mut current = String::new();
    proof {
        assert(ident@.take(0) =~= Seq::<char>::empty());
        assert(views(done@).push(current@) =~= words(Seq::<char>::empty()));
    }
    for c in it: ident.chars()
        invariant
            it.seq() == ident@,
            views(done@).push(current@) == words(ident@.take(it.index() as int)),
    {
        let ghost prefix = ident@.take(it.index() as int);
        let ghost before = views(done@);
        let ghost word = current@;
        proof {
            assert(ident@.take(it.index() as int + 1) =~= prefix.push(c));
            assert(before.push(word).drop_last() =~= before);
        }
        if c == '_' {
            done.push(current);
            current = String::new();
            proof {
                lemma_words_separator(prefix);
                assert(views(done@) =~= before.push(word));
            }
        } else {
            current.push(c);
            proof {
                lemma_words_extend(prefix, c);
            }
        }
    }
    proof {
        assert(ident@.take(ident@.len() as int) =~= ident@);
        assert(views(done@.push(current)) =~= views(done@).push(current@));
    }
    done.push(current);
    done
}

/// Appends `word` to `out` with its first character replaced by `initial`.
/// An empty word adds nothing.
pub fn push_with_initial(out: &mut String, word: &str, initial: &Vec<char>)
    ensures
        final(out)@ == old(out)@ + with_initial(word@, initial@),
{
    let len = word.unicode_len();
    if len > 0 {
        push_chars(out, initial);
        out.append(word.substring_char(1, len));
        assert(word@.subrange(1, len as int) =~= word@.drop_first());
        assert(out@ =~= old(out)@ + with_initial(word@, initial@));
    } else {
        assert(out@ =~= old(out)@ + with_initial(word@, initial@));
    }
}

/// Appends `word` to `out` with its first character replaced by its
/// uppercase mapping.
fn push_capitalized(out: &mut String, word: &str)
    ensures
        final(out)@ == old(out)@ + capitalize(word@),
{
    if word.unicode_len() > 0 {
        let initial = upper(word.get_char(0));
        push_with_initial(out, word, &initial);
    } else {
        assert(out@ =~= old(out)@ + capitalize(word@));
    }
}

/// Appends `word` to `out` with its first character replaced by its
/// lowercase mapping.
fn push_decapitalized(out: &mut String, word: &str)
    ensures
        final(out)@ == old(out)@ + decapitalize(word@),
{
    if word.unicode_len() > 0 {
        let initial = lower(word.get_char(0));
        push_with_initial(out, word, &initial);
    } else {
        assert(out@ =~= old(out)@ + decapitalize(word@));
    }
}

/// The name of a type in the schema: the identifier in upper camel case.
/// Each word between underscores has its first character replaced by its
/// uppercase mapping; the underscores vanish, and empty words add nothing.
pub fn pascal_name(ident: &str) -> (r: String)
    ensures
        r@ == pascal_name_of(ident@),
{
    let pieces = split_words(ident);
    let ghost parts = pascal_words(ident@);
    let mut out = String::new();
    let mut i: usize = 0;
    proof {
        assert(parts.take(0) =~= Seq::<Seq<char>>::empty());
    }
    while i < pieces.len()
        invariant
            i <= pieces.len(),
            views(pieces@) == words(ident@),
            parts == pascal_words(ident@),
            out@ == concat_all(parts.take(i as int)),
        decreases pieces.len() - i,
    {
        push_capitalized(&mut out, pieces[i].as_str());
        proof {
            assert(views(pieces@)[i as int] == pieces[i as int]@);
            assert(parts.take(i as int + 1) =~= parts.take(i as int).push(parts[i as int]));
            lemma_concat_all_push(parts.take(i as int), parts[i as int]);
        }
        i += 1;
    }
    proof {
        assert(parts.take(i as int) =~= parts);
    }
    out
}

/// The name of a field, variant, method or parameter in the schema: the
/// identifier in lower camel case. The first word has its first character
/// replaced by its lowercase mapping, every later word by its uppercase
/// mapping; the underscores vanish, and empty words add nothing.
pub fn camel_name(ident: &str) -> (r: String)
    ensures
        r@ == camel_name_of(ident@),
{
    let pieces = split_words(ident);
    let ghost parts = camel_words(ident@);
    let mut out = String::new();
    let mut i: usize = 0;
    proof {
        assert(parts.take(0) =~= Seq::<Seq<char>>::empty());
    }
    while i < pieces.len()
        invariant
            i <= pieces.len(),
            views(pieces@) == words(ident@),
            parts == camel_words(ident@),
            out@ == concat_all(parts.take(i as int)),
        decreases pieces.len() - i,
    {
        if i == 0 {
            push_decapitalized(&mut out, pieces[i].as_str());
        } else {
            push_capitalized(&mut out, pieces[i].as_str());
        }
        proof {
            assert(views(pieces@)[i as int] == pieces[i as int]@);
            assert(parts.take(i as int + 1) =~= parts.take(i as int).push(parts[i as int]));
            lemma_concat_all_push(parts.take(i as int), parts[i as int]);
        }
        i += 1;
    }
    proof {
        assert(parts.take(i as int) =~= parts);
    }
    out
}

} // verus!
