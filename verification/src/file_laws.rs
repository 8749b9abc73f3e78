//! What holds of files: environment files, the files of a configuration, and the text
//! in them.

use vstd::prelude::*;

use crate::env_file;
use crate::load;
use crate::load::Found;
use crate::paths;
use crate::text;

verus! {

/// Every character of `s` is white space.
pub open spec fn blank(s: Seq<char>) -> bool {
    forall|i: int| 0 <= i < s.len() ==> text::white_space(#[trigger] s[i])
}

/// `s` neither begins nor ends with white space.
pub open spec fn bare(s: Seq<char>) -> bool {
    s.len() > 0 ==> !text::white_space(s[0]) && !text::white_space(s[s.len() - 1])
}

/// The white space of Unicode is made up of the controls from tab to carriage return,
/// the space, the next line, the no-break spaces, the ogham mark, the spaces of
/// typography, the two separators, the mathematical and the ideographic space.
pub proof fn law_white_space(c: char)
    ensures
        text::white_space(c) <==> seq![
            0x09u32,
            0x0a,
            0x0b,
            0x0c,
            0x0d,
            0x20,
            0x85,
            0xa0,
            0x1680,
            0x2000,
            0x2001,
            0x2002,
            0x2003,
            0x2004,
            0x2005,
            0x2006,
            0x2007,
            0x2008,
            0x2009,
            0x200a,
            0x2028,
            0x2029,
            0x202f,
            0x205f,
            0x3000,
        ].contains(c as u32),
{
    let all = seq![
        0x09u32,
        0x0a,
        0x0b,
        0x0c,
        0x0d,
        0x20,
        0x85,
        0xa0,
        0x1680,
        0x2000,
        0x2001,
        0x2002,
        0x2003,
        0x2004,
        0x2005,
        0x2006,
        0x2007,
        0x2008,
        0x2009,
        0x200a,
        0x2028,
        0x2029,
        0x202f,
        0x205f,
        0x3000,
    ];
    let u = c as u32;
    if 0x9 <= u <= 0xd {
        assert(all[u - 0x9] == u);
    }
    if 0x2000 <= u <= 0x200a {
        assert(all[9 + (u - 0x2000)] == u);
    }
    assert(all[5] == 0x20 && all[6] == 0x85 && all[7] == 0xa0 && all[8] == 0x1680);
    assert(all[20] == 0x2028 && all[21] == 0x2029 && all[22] == 0x202f && all[23] == 0x205f
        && all[24] == 0x3000);
}

/// White space goes at the start.
proof fn lemma_trim_start(before: Seq<char>, s: Seq<char>)
    requires
        blank(before),
        s.len() > 0 ==> !text::white_space(s[0]),
    ensures
        text::trim_start(before + s) == s,
    decreases before.len(),
{
    if before.len() == 0 {
        assert(before + s =~= s);
    } else {
        let rest = before.drop_first();
        assert forall|i: int| 0 <= i < rest.len() implies text::white_space(#[trigger] rest[i]) by {
            assert(rest[i] == before[i + 1]);
        }
        assert((before + s).first() == before[0]);
        assert((before + s).drop_first() =~= rest + s);
        lemma_trim_start(rest, s);
    }
}

/// White space goes at the end.
proof fn lemma_trim_end(s: Seq<char>, after: Seq<char>)
    requires
        blank(after),
        s.len() > 0 ==> !text::white_space(s[s.len() - 1]),
    ensures
        text::trim_end(s + after) == s,
    decreases after.len(),
{
    if after.len() == 0 {
        assert(s + after =~= s);
    } else {
        let rest = after.drop_last();
        assert forall|i: int| 0 <= i < rest.len() implies text::white_space(#[trigger] rest[i]) by {
            assert(rest[i] == after[i]);
        }
        assert((s + after).last() == after.last());
        assert(after.last() == after[after.len() - 1]);
        assert((s + after).drop_last() =~= s + rest);
        lemma_trim_end(s, rest);
    }
}

/// A text with white space around it is trimmed to the text, and white space alone to
/// nothing.
pub proof fn law_trimmed(before: Seq<char>, s: Seq<char>, after: Seq<char>)
    requires
        blank(before),
        blank(after),
        bare(s),
    ensures
        text::trim(before + s + after) == s,
{
    if s.len() == 0 {
        let all = before + after;
        assert forall|i: int| 0 <= i < all.len() implies text::white_space(#[trigger] all[i]) by {
            if i < before.len() {
                assert(all[i] == before[i]);
            } else {
                assert(all[i] == after[i - before.len()]);
            }
        }
        assert(before + s + after =~= all + s);
        lemma_trim_start(all, s);
        assert(s =~= Seq::empty());
    } else {
        assert(before + s + after =~= before + (s + after));
        assert((s + after)[0] == s[0]);
        lemma_trim_start(before, s + after);
        lemma_trim_end(s, after);
    }
}

/// A line of a name, `=` and a value sets that variable to that value and no other, for
/// all names that are not empty, hold no `=` and do not begin with `#`, and all values.
/// White space around the name and the value does not count.
pub proof fn law_line_sets(
    env: Map<Seq<char>, Seq<char>>,
    name: Seq<char>,
    value: Seq<char>,
    spaces: (Seq<char>, Seq<char>, Seq<char>, Seq<char>),
    other: Seq<char>,
)
    requires
        bare(name),
        bare(value),
        name.len() > 0,
        name[0] != '#',
        !name.contains('='),
        blank(spaces.0),
        blank(spaces.1),
        blank(spaces.2),
        blank(spaces.3),
    ensures
        ({
            let line = spaces.0 + name + spaces.1 + seq!['='] + spaces.2 + value + spaces.3;
            let after = env_file::after_line(env, line);
            &&& env_file::line_entry(line) == Some((name, value))
            &&& after.contains_key(name)
            &&& after[name] == value
            &&& other != name ==> after.contains_key(other) == env.contains_key(other)
            &&& other != name && env.contains_key(other) ==> after[other] == env[other]
        }),
{
    let line = spaces.0 + name + spaces.1 + seq!['='] + spaces.2 + value + spaces.3;
    let none = Seq::<char>::empty();
    let head = name + spaces.1;
    let tail = if value.len() > 0 {
        spaces.2 + value
    } else {
        none
    };
    let core = head + seq!['='] + tail;
    let end = if value.len() > 0 {
        spaces.3
    } else {
        spaces.2 + spaces.3
    };
    assert(!text::white_space('='));
    assert(blank(end)) by {
        assert forall|i: int| 0 <= i < end.len() implies text::white_space(#[trigger] end[i]) by {
            if value.len() == 0 {
                if i < spaces.2.len() {
                    assert(end[i] == spaces.2[i]);
                } else {
                    assert(end[i] == spaces.3[i - spaces.2.len()]);
                }
            }
        }
    }
    if value.len() == 0 {
        assert(value =~= none);
        assert(line =~= spaces.0 + core + end);
    } else {
        assert(core.last() == value[value.len() - 1]);
        assert(line =~= spaces.0 + core + end);
    }
    assert(core[0] == name[0]);
    assert(bare(core));
    law_trimmed(spaces.0, core, end);
    let n = head.len() as int;
    assert(core[n] == '=');
    assert forall|i: int| 0 <= i < n implies core[i] != '=' by {
        if i < name.len() {
            assert(core[i] == name[i]);
            assert(name.contains(name[i]));
        } else {
            assert(core[i] == spaces.1[i - name.len()]);
        }
    }
    core.index_of_first_ensures('=');
    assert(core.contains('='));
    assert(core.index_of_first('=') == Some(n));
    assert(core.take(n) =~= none + name + spaces.1);
    law_trimmed(none, name, spaces.1);
    assert(core.skip(n + 1) =~= tail);
    if value.len() > 0 {
        assert(tail =~= spaces.2 + value + none);
        law_trimmed(spaces.2, value, none);
    } else {
        assert(tail =~= none + none + none);
        law_trimmed(none, none, none);
    }
    assert(env_file::line_entry(line) == Some((name, value)));
}

/// A line that begins with `=`, white space aside, sets the variable without a name.
pub proof fn law_nameless_line_sets(
    value: Seq<char>,
    spaces: (Seq<char>, Seq<char>, Seq<char>),
)
    requires
        bare(value),
        blank(spaces.0),
        blank(spaces.1),
        blank(spaces.2),
    ensures
        env_file::line_entry(spaces.0 + seq!['='] + spaces.1 + value + spaces.2) == Some(
            (Seq::<char>::empty(), value),
        ),
{
    let line = spaces.0 + seq!['='] + spaces.1 + value + spaces.2;
    let none = Seq::<char>::empty();
    let tail = if value.len() > 0 {
        spaces.1 + value
    } else {
        none
    };
    let end = if value.len() > 0 {
        spaces.2
    } else {
        spaces.1 + spaces.2
    };
    let core = seq!['='] + tail;
    assert(!text::white_space('='));
    assert forall|i: int| 0 <= i < end.len() implies text::white_space(#[trigger] end[i]) by {
        if value.len() == 0 {
            if i < spaces.1.len() {
                assert(end[i] == spaces.1[i]);
            } else {
                assert(end[i] == spaces.2[i - spaces.1.len()]);
            }
        }
    }
    if value.len() == 0 {
        assert(value =~= none);
    } else {
        assert(core.last() == value[value.len() - 1]);
    }
    assert(line =~= spaces.0 + core + end);
    law_trimmed(spaces.0, core, end);
    core.index_of_first_ensures('=');
    assert(core[0] == '=');
    assert(core.contains('='));
    assert(core.index_of_first('=') == Some(0int));
    assert(core.take(0) =~= none + none + none);
    law_trimmed(none, none, none);
    assert(core.skip(1) =~= tail);
    if value.len() > 0 {
        assert(tail =~= spaces.1 + value + none);
        law_trimmed(spaces.1, value, none);
    } else {
        assert(tail =~= none + none + none);
    }
}

/// A line that begins with `#`, white space aside, or that holds no `=`, sets nothing.
pub proof fn law_other_line_sets_nothing(before: Seq<char>, rest: Seq<char>, line: Seq<char>)
    requires
        blank(before),
        !line.contains('='),
    ensures
        env_file::line_entry(before + seq!['#'] + rest) is None,
        env_file::line_entry(line) is None,
{
    let mark = seq!['#'] + rest;
    assert(!text::white_space('#'));
    assert(before + seq!['#'] + rest =~= before + mark);
    lemma_trim_start(before, mark);
    lemma_trim_end_first(mark);
    lemma_trim_within(line);
    text::trim(line).index_of_first_ensures('=');
}

/// What does not begin with white space keeps its first character when its end is
/// trimmed.
proof fn lemma_trim_end_first(s: Seq<char>)
    requires
        s.len() > 0,
        !text::white_space(s[0]),
    ensures
        text::trim_end(s).len() > 0,
        text::trim_end(s)[0] == s[0],
    decreases s.len(),
{
    if text::white_space(s.last()) {
        assert(s.len() > 1);
        lemma_trim_end_first(s.drop_last());
    }
}

/// Trimming adds no character.
proof fn lemma_trim_within(s: Seq<char>)
    ensures
        forall|c: char| text::trim(s).contains(c) ==> s.contains(c),
{
    lemma_trim_start_within(s);
    lemma_trim_end_within(text::trim_start(s));
}

/// Trimming the start adds no character.
proof fn lemma_trim_start_within(s: Seq<char>)
    ensures
        forall|c: char| text::trim_start(s).contains(c) ==> s.contains(c),
    decreases s.len(),
{
    if s.len() > 0 && text::white_space(s.first()) {
        let rest = s.drop_first();
        lemma_trim_start_within(rest);
        assert forall|c: char| rest.contains(c) implies s.contains(c) by {
            let i = choose|i: int| 0 <= i < rest.len() && rest[i] == c;
            assert(s[i + 1] == c);
        }
    }
}

/// Trimming the end adds no character.
proof fn lemma_trim_end_within(s: Seq<char>)
    ensures
        forall|c: char| text::trim_end(s).contains(c) ==> s.contains(c),
    decreases s.len(),
{
    if s.len() > 0 && text::white_space(s.last()) {
        let rest = s.drop_last();
        lemma_trim_end_within(rest);
        assert forall|c: char| rest.contains(c) implies s.contains(c) by {
            let i = choose|i: int| 0 <= i < rest.len() && rest[i] == c;
            assert(s[i] == c);
        }
    }
}

/// A file of one line of a name, `=` and a value sets that variable to that value and no
/// other.
pub proof fn law_file_of_one_line(
    env: Map<Seq<char>, Seq<char>>,
    name: Seq<char>,
    value: Seq<char>,
    other: Seq<char>,
)
    requires
        bare(name),
        bare(value),
        name.len() > 0,
        name[0] != '#',
        !name.contains('='),
        !name.contains('\n'),
        !value.contains('\n'),
    ensures
        ({
            let after = env_file::after_file(env, name + seq!['='] + value);
            &&& after.contains_key(name)
            &&& after[name] == value
            &&& other != name ==> after.contains_key(other) == env.contains_key(other)
            &&& other != name && env.contains_key(other) ==> after[other] == env[other]
        }),
{
    let none = Seq::<char>::empty();
    let line = name + seq!['='] + value;
    assert forall|i: int| 0 <= i < line.len() implies line[i] != '\n' by {
        if i < name.len() {
            assert(name.contains(name[i]));
        } else if i > name.len() {
            assert(line[i] == value[i - name.len() - 1]);
            assert(value.contains(value[i - name.len() - 1]));
        }
    }
    text::lemma_split_none(line, '\n');
    assert(line =~= none + name + none + seq!['='] + none + value + none);
    law_line_sets(env, name, value, (none, none, none, none), other);
    reveal_with_fuel(env_file::after_lines, 2);
    assert(seq![line].drop_last() =~= Seq::empty());
}

/// The lines one after the other, with a line feed between.
pub open spec fn line_joined(list: Seq<Seq<char>>) -> Seq<char>
    decreases list.len(),
{
    if list.len() == 0 {
        Seq::empty()
    } else if list.len() == 1 {
        list[0]
    } else {
        line_joined(list.drop_last()).push('\n') + list.last()
    }
}

/// A file has a line at least, no line holds a line feed, and the lines with a line feed
/// between are the file.
pub proof fn law_lines(s: Seq<char>, i: int)
    ensures
        env_file::lines(s).len() > 0,
        line_joined(env_file::lines(s)) == s,
        0 <= i < env_file::lines(s).len() ==> !env_file::lines(s)[i].contains('\n'),
    decreases s.len(),
{
    let all = env_file::lines(s);
    if s.len() == 0 {
        assert(s =~= Seq::empty());
    } else {
        let init = s.drop_last();
        let before = env_file::lines(init);
        law_lines(init, i);
        law_lines(init, before.len() - 1);
        assert(s =~= init.push(s.last()));
        if s.last() == '\n' {
            assert(all.drop_last() =~= before);
            assert(line_joined(all) =~= line_joined(before).push('\n'));
        } else {
            assert(all.drop_last() =~= before.drop_last());
            assert(all.last() == before.last().push(s.last()));
            if before.len() > 1 {
                assert(line_joined(all) =~= line_joined(before).push(s.last()));
            } else {
                assert(line_joined(all) =~= line_joined(before).push(s.last()));
            }
            let last = before.last();
            assert(before[before.len() - 1] == last);
            assert forall|j: int| 0 <= j < last.push(s.last()).len() implies last.push(
                s.last(),
            )[j] != '\n' by {
                if j < last.len() {
                    assert(last.contains(last[j]));
                }
            }
            if 0 <= i < all.len() - 1 {
                assert(all[i] == before[i]);
            }
        }
    }
}

/// A file is read line by line: what a file of some lines sets is what the lines set,
/// one after the other.
pub proof fn law_file_is_its_lines(env: Map<Seq<char>, Seq<char>>, list: Seq<Seq<char>>)
    requires
        list.len() > 0,
        forall|i: int| 0 <= i < list.len() ==> !(#[trigger] list[i]).contains('\n'),
    ensures
        env_file::after_file(env, line_joined(list)) == env_file::after_lines(env, list),
{
    lemma_joined_lines(list);
}

/// Lines that are joined are told apart again.
proof fn lemma_joined_lines(list: Seq<Seq<char>>)
    requires
        list.len() > 0,
        forall|i: int| 0 <= i < list.len() ==> !(#[trigger] list[i]).contains('\n'),
    ensures
        env_file::lines(line_joined(list)) == list,
    decreases list.len(),
{
    let init = list.drop_last();
    assert(list[list.len() - 1] == list.last());
    text::lemma_split_none(list.last(), '\n');
    if list.len() == 1 {
        assert(seq![list[0]] =~= list);
    } else {
        assert forall|i: int| 0 <= i < init.len() implies !(#[trigger] init[i]).contains('\n') by {
            assert(init[i] == list[i]);
        }
        lemma_joined_lines(init);
        text::lemma_split_concat(line_joined(init), '\n', list.last());
        assert(init + seq![list.last()] =~= list);
    }
}

/// A variable has the value that the last line that sets it gives it.
pub proof fn law_last_line_counts(
    env: Map<Seq<char>, Seq<char>>,
    list: Seq<Seq<char>>,
    name: Seq<char>,
    value: Seq<char>,
    i: int,
)
    requires
        0 <= i < list.len(),
        env_file::line_entry(list[i]) == Some((name, value)),
        forall|j: int| i < j < list.len() ==> !sets(#[trigger] list[j], name),
    ensures
        env_file::after_lines(env, list).contains_key(name),
        env_file::after_lines(env, list)[name] == value,
    decreases list.len(),
{
    let init = list.drop_last();
    assert(list[list.len() - 1] == list.last());
    if i < list.len() - 1 {
        assert(init[i] == list[i]);
        assert forall|j: int| i < j < init.len() implies !sets(#[trigger] init[j], name) by {
            assert(init[j] == list[j]);
        }
        law_last_line_counts(env, init, name, value, i);
        assert(!sets(list[list.len() - 1], name));
    }
}

/// A variable that no line sets is as it was.
pub proof fn law_unset_variable_kept(
    env: Map<Seq<char>, Seq<char>>,
    list: Seq<Seq<char>>,
    name: Seq<char>,
)
    requires
        forall|j: int| 0 <= j < list.len() ==> !sets(#[trigger] list[j], name),
    ensures
        env_file::after_lines(env, list).contains_key(name) == env.contains_key(name),
        env.contains_key(name) ==> env_file::after_lines(env, list)[name] == env[name],
    decreases list.len(),
{
    if list.len() > 0 {
        let init = list.drop_last();
        assert forall|j: int| 0 <= j < init.len() implies !sets(#[trigger] init[j], name) by {
            assert(init[j] == list[j]);
        }
        law_unset_variable_kept(env, init, name);
        assert(!sets(list[list.len() - 1], name));
    }
}

/// The line sets the variable `name`.
pub open spec fn sets(line: Seq<char>, name: Seq<char>) -> bool {
    env_file::line_entry(line) matches Some(e) && e.0 == name
}

/// The byte is a letter, in lower or in upper case.
pub open spec fn letter(b: u8, lower: u8, upper: u8) -> bool {
    b == lower || b == upper
}

/// A configuration file is a file whose name is at least one byte, a dot and the four
/// letters of `toml`, each in lower or upper case.
pub proof fn law_config_file_name(found: Found)
    ensures
        ({
            let name = found.name@;
            let n = name.len() as int;
            found.is_config() <==> found.is_file && n >= 6 && name[n - 5] == 46 && letter(
                name[n - 4],
                116,
                84,
            ) && letter(name[n - 3], 111, 79) && letter(name[n - 2], 109, 77) && letter(
                name[n - 1],
                108,
                76,
            )
        }),
{
    let name = found.name@;
    let n = name.len() as int;
    name.index_of_last_ensures(load::DOT);
    if found.is_config() {
        let ext = load::extension(name)->0;
        let low = ext.map_values(|b: u8| load::ascii_lower(b));
        let word = load::toml_bytes();
        assert(low.len() == word.len());
        assert forall|k: int| 0 <= k < 4 implies load::ascii_lower(#[trigger] ext[k]) == word[k] by {
            assert(low[k] == word[k]);
        }
        assert(ext[0] == name[n - 4] && ext[1] == name[n - 3] && ext[2] == name[n - 2] && ext[3]
            == name[n - 1]);
    }
    if found.is_file && n >= 6 && name[n - 5] == 46 && letter(name[n - 4], 116, 84) && letter(
        name[n - 3],
        111,
        79,
    ) && letter(name[n - 2], 109, 77) && letter(name[n - 1], 108, 76) {
        assert(name.contains(load::DOT));
        assert(name.index_of_last(load::DOT) == Some(n - 5));
        let ext = load::extension(name)->0;
        assert(ext.map_values(|b: u8| load::ascii_lower(b)) =~= load::toml_bytes());
    }
}

/// The configuration files of a list are all read, nothing else is, and they are read
/// in the order in which they were found.
pub proof fn law_config_files_read(found: Seq<Found>, i: int, j: int)
    ensures
        ({
            let at = load::config_positions(found);
            &&& at.contains(i) <==> 0 <= i < found.len() && found[i].is_config()
            &&& 0 <= i < j < at.len() ==> at[i] < at[j]
            &&& 0 <= i < at.len() ==> 0 <= at[i] < found.len()
        }),
    decreases found.len(),
{
    let at = load::config_positions(found);
    if found.len() > 0 {
        let init = found.drop_last();
        let before = load::config_positions(init);
        let n = found.len() - 1;
        law_config_files_read(init, i, j);
        if found.last().is_config() {
            if before.contains(i) {
                let k = choose|k: int| 0 <= k < before.len() && before[k] == i;
                assert(at[k] == i);
            }
            assert(at[before.len() as int] == n);
            if at.contains(i) && i != n {
                let k = choose|k: int| 0 <= k < at.len() && at[k] == i;
                assert(before[k] == i);
            }
        }
        if 0 <= i < n {
            assert(init[i] == found[i]);
        }
    }
}

/// A configuration is written anew exactly where there is no configuration file, and
/// otherwise all of them are read.
pub proof fn law_load_planned(found: Seq<Found>, i: int)
    ensures
        load::load_plan(found) is None <==> forall|k: int|
            0 <= k < found.len() ==> !(#[trigger] found[k]).is_config(),
        load::load_plan(found) matches Some(at) ==> (at.contains(i) <==> 0 <= i < found.len()
            && found[i].is_config()),
{
    let at = load::config_positions(found);
    law_config_files_read(found, i, i);
    if at.len() > 0 {
        law_config_files_read(found, at[0], 0);
        assert(at.contains(at[0]));
    }
    assert forall|k: int| 0 <= k < found.len() && (#[trigger] found[k]).is_config() implies at.len()
        > 0 by {
        law_config_files_read(found, k, k);
    }
}

/// The files of a configuration are put one below the other: one file alone stands as
/// it is, and two lists of files stand below each other with a line feed between.
pub proof fn law_files_below_each_other(a: Seq<Seq<char>>, b: Seq<Seq<char>>, one: Seq<char>)
    ensures
        load::merged(seq![one]) == one,
        load::merged(Seq::empty()).len() == 0,
        a.len() > 0 && b.len() > 0 ==> load::merged(a + b) == load::merged(a) + seq!['\n']
            + load::merged(b),
    decreases b.len(),
{
    reveal_strlit("\n");
    assert("\n"@ =~= seq!['\n']);
    if a.len() > 0 && b.len() > 0 {
        assert((a + b).drop_last() =~= a + b.drop_last());
        assert((a + b).last() == b.last());
        if b.len() == 1 {
            assert(a + b.drop_last() =~= a);
            assert(load::merged(a + b) =~= load::merged(a) + seq!['\n'] + load::merged(b));
        } else {
            law_files_below_each_other(a, b.drop_last(), one);
            assert(load::merged(a + b) =~= load::merged(a) + seq!['\n'] + load::merged(b));
        }
    }
}

/// The home directory takes the place of a tilde that is the whole path or that a slash
/// follows, and what follows the tilde stays. A path that begins otherwise stays as it
/// is, and so does every path where there is no home directory.
pub proof fn law_home(path: Seq<char>, home: Seq<char>, rest: Seq<char>, expanded: Seq<char>)
    ensures
        paths::expansion(seq!['~'], Some(home), expanded) ==> expanded == home,
        paths::expansion(seq!['~', '/'] + rest, Some(home), expanded) ==> expanded == home
            + seq!['/'] + rest,
        path.len() == 0 || path[0] != '~' || (path.len() > 1 && path[1] != '/' && path[1] != '\\')
            ==> (paths::expansion(path, Some(home), expanded) ==> expanded == path),
        paths::expansion(path, None, expanded) ==> expanded == path,
{
    assert(home + seq!['~'].skip(1) =~= home);
    let long = seq!['~', '/'] + rest;
    assert(home + long.skip(1) =~= home + seq!['/'] + rest);
}

/// The number that a text of digits is the numeral of.
pub open spec fn number_read(s: Seq<char>) -> nat
    decreases s.len(),
{
    if s.len() == 0 {
        0
    } else {
        10 * number_read(s.drop_last()) + (s.last() as u32 - '0' as u32) as nat
    }
}

/// A numeral consists of digits, does not begin with zero unless it is zero, and reads
/// as the number that it is of.
pub proof fn law_numeral(n: nat, i: int)
    ensures
        text::decimal(n).len() > 0,
        0 <= i < text::decimal(n).len() ==> '0' <= text::decimal(n)[i] <= '9',
        n > 0 ==> text::decimal(n)[0] != '0',
        number_read(text::decimal(n)) == n,
    decreases n,
{
    text::lemma_decimal_digits(n);
    if n < 10 {
        assert(text::digit(n) as nat == 48 + n);
        assert(text::decimal(n).drop_last() =~= Seq::empty());
        assert(number_read(text::decimal(n)) == n) by {
            reveal_with_fuel(number_read, 2);
        }
    } else {
        law_numeral(n / 10, i);
        assert(text::digit(n % 10) as nat == 48 + n % 10);
        assert(text::decimal(n).drop_last() =~= text::decimal(n / 10));
        assert(text::decimal(n)[0] == text::decimal(n / 10)[0]);
    }
}

} // verus!
