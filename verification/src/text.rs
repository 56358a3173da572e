//! Building blocks for the text that the generators emit: decimal numerals,
//! joining with a separator, and capitalising a name.

use vstd::prelude::*;

verus! {

/// The decimal digit that stands for `d`, for `d` below ten.
pub open spec fn digit_char(d: nat) -> char {
    if d == 0 {
        '0'
    } else if d == 1 {
        '1'
    } else if d == 2 {
        '2'
    } else if d == 3 {
        '3'
    } else if d == 4 {
        '4'
    } else if d == 5 {
        '5'
    } else if d == 6 {
        '6'
    } else if d == 7 {
        '7'
    } else if d == 8 {
        '8'
    } else {
        '9'
    }
}

/// The decimal numeral of `n`: most significant digit first, no leading zero.
pub open spec fn decimal(n: nat) -> Seq<char>
    decreases n,
{
    if n < 10 {
        seq![digit_char(n)]
    } else {
        decimal(n / 10).push(digit_char(n % 10))
    }
}

/// `parts` written one after the other with `sep` between neighbours.
pub open spec fn join(parts: Seq<Seq<char>>, sep: Seq<char>) -> Seq<char>
    decreases parts.len(),
{
    if parts.len() == 0 {
        Seq::empty()
    } else if parts.len() == 1 {
        parts[0]
    } else {
        join(parts.drop_last(), sep) + sep + parts.last()
    }
}

/// Every element of `parts` followed by `end`, one after the other.
pub open spec fn concat_terminated(parts: Seq<Seq<char>>, end: Seq<char>) -> Seq<char>
    decreases parts.len(),
{
    if parts.len() == 0 {
        Seq::empty()
    } else {
        concat_terminated(parts.drop_last(), end) + parts.last() + end
    }
}

/// What `char::to_uppercase` yields for `c`, as the characters in order.
pub uninterp spec fn uppercase_of(c: char) -> Seq<char>;

/// What `char::to_lowercase` yields for `c`, as the characters in order.
pub uninterp spec fn lowercase_of(c: char) -> Seq<char>;

/// Each character of `s` in lower case, one after the other.
pub open spec fn lowered(s: Seq<char>) -> Seq<char>
    decreases s.len(),
{
    if s.len() == 0 {
        Seq::empty()
    } else {
        lowered(s.drop_last()) + lowercase_of(s.last())
    }
}

/// `word` with `upper` in place of its first character; the empty word stays empty.
pub open spec fn with_first_replaced(word: Seq<char>, upper: Seq<char>) -> Seq<char> {
    if word.len() == 0 {
        word
    } else {
        upper + word.skip(1)
    }
}

/// `word` with its first character in upper case and the rest as it was.
pub open spec fn capitalized(word: Seq<char>) -> Seq<char> {
    if word.len() == 0 {
        word
    } else {
        with_first_replaced(word, uppercase_of(word[0]))
    }
}

/// Joining one more part appends the separator and the part, unless it is the first.
pub proof fn lemma_join_push(parts: Seq<Seq<char>>, sep: Seq<char>, last: Seq<char>)
    ensures
        join(parts.push(last), sep) == if parts.len() == 0 {
            last
        } else {
            join(parts, sep) + sep + last
        },
{
    assert(parts.push(last).drop_last() =~= parts);
}

/// Joining two runs of parts is joining each and putting the separator
/// between them, where both hold a part.
pub proof fn lemma_join_concat(a: Seq<Seq<char>>, b: Seq<Seq<char>>, sep: Seq<char>)
    ensures
        join(a + b, sep) == if a.len() == 0 {
            join(b, sep)
        } else if b.len() == 0 {
            join(a, sep)
        } else {
            join(a, sep) + sep + join(b, sep)
        },
    decreases b.len(),
{
    if b.len() == 0 {
        assert(a + b =~= a);
    } else if a.len() == 0 {
        assert(a + b =~= b);
    } else {
        let front = b.drop_last();
        assert((a + b).drop_last() =~= a + front);
        assert((a + b).last() == b.last());
        lemma_join_concat(a, front, sep);
        if front.len() == 0 {
            assert(a + front =~= a);
            assert(join(b, sep) == b.last());
        } else {
            assert(join(a + b, sep) =~= join(a, sep) + sep + join(b, sep));
        }
    }
}

/// Writing text before the first part writes it before the whole.
pub proof fn lemma_join_behind(parts: Seq<Seq<char>>, sep: Seq<char>, before: Seq<char>)
    requires
        parts.len() > 0,
    ensures
        join(parts.update(0, before + parts[0]), sep) == before + join(parts, sep),
    decreases parts.len(),
{
    let changed = parts.update(0, before + parts[0]);
    if parts.len() > 1 {
        let front = parts.drop_last();
        lemma_join_behind(front, sep, before);
        assert(changed.drop_last() =~= front.update(0, before + front[0]));
        assert(changed.last() == parts.last());
        assert(join(changed, sep) =~= before + join(parts, sep));
    }
}

/// Appending one more terminated part.
pub proof fn lemma_concat_terminated_push(parts: Seq<Seq<char>>, end: Seq<char>, last: Seq<char>)
    ensures
        concat_terminated(parts.push(last), end) == concat_terminated(parts, end) + last + end,
{
    assert(parts.push(last).drop_last() =~= parts);
}

fn digit_str(d: usize) -> (r: &'static str)
    requires
        d < 10,
    ensures
        r@ == seq![digit_char(d as nat)],
{
    proof {
        reveal_strlit("0");
        reveal_strlit("1");
        reveal_strlit("2");
        reveal_strlit("3");
        reveal_strlit("4");
        reveal_strlit("5");
        reveal_strlit("6");
        reveal_strlit("7");
        reveal_strlit("8");
        reveal_strlit("9");
    }
    let r = if d == 0 {
        "0"
    } else if d == 1 {
        "1"
    } else if d == 2 {
        "2"
    } else if d == 3 {
        "3"
    } else if d == 4 {
        "4"
    } else if d == 5 {
        "5"
    } else if d == 6 {
        "6"
    } else if d == 7 {
        "7"
    } else if d == 8 {
        "8"
    } else {
        "9"
    };
    assert(r@ =~= seq![digit_char(d as nat)]);
    r
}

/// Writes `n` as a decimal numeral.
pub fn usize_to_decimal(n: usize) -> (s: String)
    ensures
        s@ == decimal(n as nat),
    decreases n,
{
    if n < 10 {
        String::from_str(digit_str(n))
    } else {
        let mut s = usize_to_decimal(n / 10);
        s.append(digit_str(n % 10));
        s
    }
}

/// Joins `parts` with `sep` between neighbours.
pub fn join_strings(parts: &Vec<String>, sep: &str) -> (r: String)
    ensures
        r@ == join(parts.deep_view(), sep@),
{
    let ghost model = parts.deep_view();
    let mut r = String::new();
    let mut i: usize = 0;
    assert(model.take(0) =~= Seq::empty());
    while i < parts.len()
        invariant
            i <= parts.len(),
            model == parts.deep_view(),
            r@ == join(model.take(i as int), sep@),
        decreases parts.len() - i,
    {
        proof {
            assert(model.take(i as int + 1) =~= model.take(i as int).push(parts[i as int]@));
            lemma_join_push(model.take(i as int), sep@, parts[i as int]@);
        }
        if i > 0 {
            r.append(sep);
        }
        r.append(parts[i].as_str());
        assert(r@ =~= join(model.take(i as int + 1), sep@));
        i += 1;
    }
    assert(model.take(i as int) =~= model);
    r
}

/// Writes every element of `parts` followed by `end`.
pub fn concat_terminated_strings(parts: &Vec<String>, end: &str) -> (r: String)
    ensures
        r@ == concat_terminated(parts.deep_view(), end@),
{
    let ghost model = parts.deep_view();
    let mut r = String::new();
    let mut i: usize = 0;
    assert(model.take(0) =~= Seq::empty());
    while i < parts.len()
        invariant
            i <= parts.len(),
            model == parts.deep_view(),
            r@ == concat_terminated(model.take(i as int), end@),
        decreases parts.len() - i,
    {
        proof {
            assert(model.take(i as int + 1) =~= model.take(i as int).push(parts[i as int]@));
            lemma_concat_terminated_push(model.take(i as int), end@, parts[i as int]@);
        }
        r.append(parts[i].as_str());
        r.append(end);
        i += 1;
    }
    assert(model.take(i as int) =~= model);
    r
}

/// `char::to_uppercase` of the standard library, collected into a string. The
/// contract names the mapping and says nothing of what it holds: the standard
/// library takes it from the Unicode character tables.
#[verifier::external_body]
fn char_to_uppercase(c: char) -> (r: String)
    ensures
        r@ == uppercase_of(c),
{
    c.to_uppercase().collect()
}

/// `char::to_lowercase` of the standard library, collected into a string. The
/// contract names the mapping and says nothing of what it holds: the standard
/// library takes it from the Unicode character tables.
#[verifier::external_body]
fn char_to_lowercase(c: char) -> (r: String)
    ensures
        r@ == lowercase_of(c),
{
    c.to_lowercase().collect()
}

/// The first character of `word` in upper case; nothing for the empty word.
pub fn upper_first(word: &str) -> (r: String)
    ensures
        r@ == if word@.len() == 0 {
            Seq::empty()
        } else {
            uppercase_of(word@[0])
        },
{
    if word.unicode_len() == 0 {
        String::new()
    } else {
        char_to_uppercase(word.get_char(0))
    }
}

/// Each character of `word` from the second on in lower case.
pub fn lower_rest(word: &str) -> (r: String)
    ensures
        r@ == if word@.len() == 0 {
            Seq::empty()
        } else {
            lowered(word@.skip(1))
        },
{
    let mut r = String::new();
    let ghost rest = if word@.len() == 0 {
        Seq::empty()
    } else {
        word@.skip(1)
    };
    let ghost mut done: int = 0;
    let mut first = true;
    assert(rest.take(0) =~= Seq::empty());
    for c in it: word.chars()
        invariant
            it.seq() == word@,
            rest == if word@.len() == 0 {
                Seq::<char>::empty()
            } else {
                word@.skip(1)
            },
            first == (it.index() == 0),
            done == if it.index() == 0 {
                0
            } else {
                it.index() - 1
            },
            r@ == lowered(rest.take(done)),
    {
        if first {
            first = false;
        } else {
            let low = char_to_lowercase(c);
            proof {
                assert(rest.take(done + 1).drop_last() =~= rest.take(done));
                assert(rest.take(done + 1).last() == c);
                done = done + 1;
            }
            r.append(low.as_str());
        }
    }
    assert(rest.take(done) =~= rest);
    r
}

/// Puts `upper` in place of the first character of `word`.
pub fn replace_first(word: &str, upper: &str) -> (r: String)
    ensures
        r@ == with_first_replaced(word@, upper@),
{
    let n = word.unicode_len();
    if n == 0 {
        let r = String::new();
        assert(r@ =~= word@);
        r
    } else {
        let mut r = String::from_str(upper);
        r.append(word.substring_char(1, n));
        assert(word@.subrange(1, n as int) =~= word@.skip(1));
        r
    }
}

/// Puts the first character of `word` in upper case and leaves the rest as it is.
pub fn capitalize(word: &str) -> (r: String)
    ensures
        r@ == capitalized(word@),
{
    if word.unicode_len() == 0 {
        let r = String::new();
        assert(r@ =~= word@);
        r
    } else {
        let upper = char_to_uppercase(word.get_char(0));
        replace_first(word, upper.as_str())
    }
}

} // verus!
