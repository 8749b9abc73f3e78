//! Files of environment variables, one `NAME=value` to a line.

use vstd::prelude::*;
use vstd::string::*;

use crate::table::Table;
use crate::text;
use crate::text::{characters, trim_bounds};

verus! {

/// The lines of a file: what stands between its line feeds.
pub open spec fn lines(s: Seq<char>) -> Seq<Seq<char>> {
    text::split(s, '\n')
}

/// The variable that a line sets: what stands before the first `=` and what
/// stands after it, both without the white space around. A line without `=`, or
/// whose first character other than white space is `#`, sets none.
pub open spec fn line_entry(line: Seq<char>) -> Option<(Seq<char>, Seq<char>)> {
    let l = text::trim(line);
    if l.len() == 0 || l[0] == '#' {
        None
    } else {
        match l.index_of_first('=') {
            Some(i) => Some((text::trim(l.take(i)), text::trim(l.skip(i + 1)))),
            None => None,
        }
    }
}

/// The variables after a line.
pub open spec fn after_line(env: Map<Seq<char>, Seq<char>>, line: Seq<char>) -> Map<
    Seq<char>,
    Seq<char>,
> {
    match line_entry(line) {
        Some((name, value)) => env.insert(name, value),
        None => env,
    }
}

/// The variables after a list of lines, one after the other.
pub open spec fn after_lines(env: Map<Seq<char>, Seq<char>>, list: Seq<Seq<char>>) -> Map<
    Seq<char>,
    Seq<char>,
>
    decreases list.len(),
{
    if list.len() == 0 {
        env
    } else {
        after_line(after_lines(env, list.drop_last()), list.last())
    }
}

/// The variables after a file.
pub open spec fn after_file(env: Map<Seq<char>, Seq<char>>, content: Seq<char>) -> Map<
    Seq<char>,
    Seq<char>,
> {
    after_lines(env, lines(content))
}

/// Sets the variable that one line of a file sets.
fn read_line(env: &mut Table<String>, content: &str, chars: &Vec<char>, from: usize, to: usize)
    requires
        chars@ == content@,
        from <= to <= chars@.len(),
    ensures
        final(env)@ == after_line(old(env)@, content@.subrange(from as int, to as int)),
{
    let (a, b) = trim_bounds(chars, from, to);
    let ghost l = chars@.subrange(a as int, b as int);
    if a == b || chars[a] == '#' {
        assert(l.len() > 0 ==> l[0] == chars@[a as int]);
        return ;
    }
    assert(l[0] == chars@[a as int]);
    let mut i: usize = a;
    while i < b && chars[i] != '='
        invariant
            a <= i <= b <= chars@.len(),
            l == chars@.subrange(a as int, b as int),
            forall|j: int| 0 <= j < i - a ==> l[j] != '=',
        decreases b - i,
    {
        assert(l[i - a] == chars@[i as int]);
        i = i + 1;
    }
    proof {
        l.index_of_first_ensures('=');
    }
    if i == b {
        return ;
    }
    assert(l[i - a] == '=');
    assert(l.index_of_first('=') == Some(i - a));
    let (na, nb) = trim_bounds(chars, a, i);
    let (va, vb) = trim_bounds(chars, i + 1, b);
    assert(chars@.subrange(a as int, i as int) =~= l.take(i - a));
    assert(chars@.subrange(i + 1, b as int) =~= l.skip(i - a + 1));
    let name = content.substring_char(na, nb).to_owned();
    let value = content.substring_char(va, vb).to_owned();
    env.insert(name, value);
}

/// Sets the variables that a file sets, in order.
pub fn read_file(env: &mut Table<String>, content: &str)
    ensures
        final(env)@ == after_file(old(env)@, content@),
{
    let chars = characters(content);
    let mut start: usize = 0;
    let mut i: usize = 0;
    let ghost initial = env@;
    let ghost mut done: Seq<Seq<char>> = Seq::empty();
    assert(content@.take(0) =~= Seq::<char>::empty());
    assert(lines(content@.take(0)) =~= done.push(content@.subrange(0, 0)));
    while i < chars.len()
        invariant
            chars@ == content@,
            start <= i <= chars@.len(),
            lines(content@.take(i as int)) == done.push(content@.subrange(start as int, i as int)),
            env@ == after_lines(initial, done),
        decreases chars@.len() - i,
    {
        let ghost current = content@.subrange(start as int, i as int);
        let ghost next = content@.take(i + 1);
        assert(next.drop_last() =~= content@.take(i as int));
        assert(next.last() == chars@[i as int]);
        if chars[i] == '\n' {
            read_line(env, content, &chars, start, i);
            proof {
                assert(done.push(current).drop_last() =~= done);
                done = done.push(current);
            }
            start = i + 1;
            assert(content@.subrange(start as int, i + 1) =~= Seq::<char>::empty());
        } else {
            assert(done.push(current).drop_last() =~= done);
            assert(content@.subrange(start as int, i + 1) =~= current.push(chars@[i as int]));
        }
        i = i + 1;
    }
    let ghost current = content@.subrange(start as int, i as int);
    read_line(env, content, &chars, start, i);
    assert(done.push(current).drop_last() =~= done);
    assert(content@.take(i as int) =~= content@);
}

} // verus!
