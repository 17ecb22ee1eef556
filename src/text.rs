use vstd::prelude::*;
use crate::timestamp::{digit_char, padded_digits};

verus! {

/// Splits `s` at every occurrence of `sep`, as the prefix `s` has been read
/// so far: the fields already closed and the field still being read.
pub open spec fn split_state(s: Seq<char>, sep: char) -> (Seq<Seq<char>>, Seq<char>)
    decreases s.len(),
{
    if s.len() == 0 {
        (Seq::empty(), Seq::empty())
    } else {
        let (done, cur) = split_state(s.drop_last(), sep);
        if s.last() == sep {
            (done.push(cur), Seq::empty())
        } else {
            (done, cur.push(s.last()))
        }
    }
}

/// The fields of `s` separated by `sep`: one more field than there are
/// separators, each possibly empty.
pub open spec fn split_spec(s: Seq<char>, sep: char) -> Seq<Seq<char>> {
    let (done, cur) = split_state(s, sep);
    done.push(cur)
}

/// Relies on `String::from_iter` over chars: the string holds exactly the given chars.
#[verifier::external_body]
pub(crate) fn string_from_chars(cs: &Vec<char>) -> (r: String)
    ensures
        r@ == cs@,
{
    String::from_iter(cs.iter())
}

/// Splits one line of a capture file at its commas.
pub fn split_fields(line: &str) -> (r: Vec<String>)
    ensures
        r@.map_values(|f: String| f@) == split_spec(line@, ','),
{
    split_at_char(line, ',')
}

/// Splits `s` at every `sep`.
pub fn split_at_char(line: &str, sep: char) -> (r: Vec<String>)
    ensures
        r@.map_values(|f: String| f@) == split_spec(line@, sep),
{
    let mut done: Vec<String> = Vec::new();
    let mut cur: Vec<char> = Vec::new();
    let ghost mut read: Seq<char> = Seq::empty();
    for c in it: line.chars()
        invariant
            read == it.seq().take(it.index() as int),
            split_state(read, sep) == (done@.map_values(|f: String| f@), cur@),
    {
        let ghost before = read;
        proof {
            read = read.push(c);
            assert(read.drop_last() =~= before);
        }
        if c == sep {
            let f = string_from_chars(&cur);
            done.push(f);
            cur = Vec::new();
            assert(done@.map_values(|f: String| f@) =~= split_state(before, sep).0.push(f@));
        } else {
            cur.push(c);
        }
    }
    assert(read =~= line@);
    let f = string_from_chars(&cur);
    done.push(f);
    assert(done@.map_values(|f: String| f@) =~= split_spec(line@, sep));
    done
}


/// The text of each string of `v`.
pub open spec fn strings_view(v: Seq<String>) -> Seq<Seq<char>> {
    v.map_values(|s: String| s@)
}

/// Whether `names` holds a string equal to `name`.
pub fn contains_name(names: &Vec<String>, name: &String) -> (r: bool)
    ensures
        r == strings_view(names@).contains(name@),
{
    let mut i: usize = 0;
    while i < names.len()
        invariant
            i <= names.len(),
            forall|k: int| 0 <= k < i ==> names@[k]@ != name@,
        decreases names.len() - i,
    {
        if names[i] == *name {
            assert(strings_view(names@)[i as int] == name@);
            return true;
        }
        i = i + 1;
    }
    proof {
        if strings_view(names@).contains(name@) {
            let k = choose|k: int| 0 <= k < strings_view(names@).len() && strings_view(names@)[k] == name@;
            assert(names@[k]@ == name@);
        }
    }
    false
}

/// A copy of the strings `v[from..to]`.
pub fn copy_range(v: &Vec<String>, from: usize, to: usize) -> (r: Vec<String>)
    requires
        from <= to <= v.len(),
    ensures
        r@ == v@.subrange(from as int, to as int),
{
    let mut r: Vec<String> = Vec::new();
    let mut i: usize = from;
    while i < to
        invariant
            from <= i <= to <= v.len(),
            r@ == v@.subrange(from as int, i as int),
        decreases to - i,
    {
        r.push(v[i].clone());
        assert(r@ =~= v@.subrange(from as int, i + 1));
        i = i + 1;
    }
    r
}

/// The fields of a line always number at least one.
pub proof fn lemma_split_nonempty(s: Seq<char>, sep: char)
    ensures
        split_spec(s, sep).len() >= 1,
{
}


/// `n` in decimal, without leading zeros.
pub open spec fn decimal(n: nat) -> Seq<char>
    decreases n,
{
    if n < 10 {
        seq![digit_char(n as int)]
    } else {
        decimal(n / 10).push(digit_char((n % 10) as int))
    }
}

/// A signed integer in decimal, with a leading `-` when negative.
pub open spec fn signed_decimal(n: int) -> Seq<char> {
    if n < 0 { seq!['-'] + decimal((-n) as nat) } else { decimal(n as nat) }
}

fn digit(d: u64) -> (c: char)
    requires
        d < 10,
    ensures
        c == digit_char(d as int),
{
    let table: [char; 10] = ['0', '1', '2', '3', '4', '5', '6', '7', '8', '9'];
    let c = table[d as usize];
    assert(table@ =~= seq!['0', '1', '2', '3', '4', '5', '6', '7', '8', '9']);
    c
}

fn push_decimal(out: &mut Vec<char>, n: u64)
    ensures
        final(out)@ == old(out)@ + decimal(n as nat),
    decreases n,
{
    if n >= 10 {
        push_decimal(out, n / 10);
    }
    let c = digit(n % 10);
    out.push(c);
    proof {
        if n >= 10 {
            assert(final(out)@ =~= old(out)@ + decimal(n as nat));
        } else {
            assert(final(out)@ =~= old(out)@ + decimal(n as nat));
        }
    }
}

/// `n` written in decimal.
pub fn decimal_string(n: u64) -> (r: String)
    ensures
        r@ == decimal(n as nat),
{
    let mut cs: Vec<char> = Vec::new();
    push_decimal(&mut cs, n);
    assert(cs@ =~= decimal(n as nat));
    string_from_chars(&cs)
}

/// `n` written in decimal, with a leading `-` when negative.
pub fn signed_decimal_string(n: i64) -> (r: String)
    ensures
        r@ == signed_decimal(n as int),
{
    let mut cs: Vec<char> = Vec::new();
    if n < 0 {
        cs.push('-');
        let m: u64 = if n == i64::MIN { 9223372036854775808u64 } else { (-n) as u64 };
        push_decimal(&mut cs, m);
    } else {
        push_decimal(&mut cs, n as u64);
    }
    assert(cs@ =~= signed_decimal(n as int));
    string_from_chars(&cs)
}

/// `prefix` followed by `n` zero-padded to `width` digits.
pub fn prefixed_padded(prefix: &str, n: u64, width: u64) -> (r: String)
    ensures
        r@ == prefix@ + padded_digits(n as nat, width as nat),
    decreases width,
{
    if width == 0 {
        assert(prefix@ + padded_digits(n as nat, 0) =~= prefix@);
        prefix.to_owned()
    } else {
        let mut s = prefixed_padded(prefix, n / 10, width - 1);
        let c = digit(n % 10);
        let cs: Vec<char> = vec![c];
        let tail = string_from_chars(&cs);
        s.append(tail.as_str());
        assert(s@ =~= prefix@ + padded_digits(n as nat, width as nat));
        s
    }
}

} // verus!
