//! How an error message is laid out on the error screen: a headline, prose
//! detail lines, and shell-command lines shown in a code card.
use vstd::prelude::*;
use crate::text::{
    chars_of, find_char, find_char_exec, lines, lines_exec, nonblank, nonblank_exec,
    slice_chars, starts_with, starts_with_exec, string_of, trim, trim_exec, views,
};

verus! {

/// The headline (first line, trimmed) and the detail lines (the later lines,
/// trimmed, blank ones dropped) of an error message.
pub open spec fn split_error_spec(e: Seq<char>) -> (Seq<char>, Seq<Seq<char>>) {
    match find_char(e, '\n') {
        None => (trim(e), seq![]),
        Some(k) => (trim(e.take(k)), nonblank(lines(e.skip(k + 1)))),
    }
}

pub open spec fn strings_view(v: Seq<String>) -> Seq<Seq<char>> {
    v.map_values(|s: String| s@)
}

fn strings_of(v: &Vec<Vec<char>>) -> (r: Vec<String>)
    ensures
        strings_view(r@) == views(v@),
{
    let mut r: Vec<String> = Vec::new();
    let mut i: usize = 0;
    while i < v.len()
        invariant
            i <= v.len(),
            strings_view(r@) =~= views(v@).take(i as int),
        decreases v.len() - i,
    {
        let ghost r0 = strings_view(r@);
        let s = string_of(&v[i]);
        r.push(s);
        assert(strings_view(r@) =~= r0.push(v@[i as int]@));
        assert(views(v@).take(i + 1) =~= views(v@).take(i as int).push(v@[i as int]@));
        i += 1;
    }
    assert(views(v@).take(v.len() as int) =~= views(v@));
    r
}

/// Split a raw error string into a short headline and detail lines.
pub fn split_error(error: &str) -> (r: (String, Vec<String>))
    ensures
        (r.0@, strings_view(r.1@)) == split_error_spec(error@),
{
    let e = chars_of(error);
    match find_char_exec(&e, '\n') {
        None => {
            let d: Vec<String> = Vec::new();
            assert(strings_view(d@) =~= seq![]);
            (string_of(&trim_exec(&e)), d)
        },
        Some(k) => {
            let head = slice_chars(&e, 0, k);
            assert(head@ =~= e@.take(k as int));
            let rest = slice_chars(&e, k + 1, e.len());
            assert(rest@ =~= e@.skip(k + 1));
            let ls = lines_exec(&rest);
            let detail = nonblank_exec(&ls);
            (string_of(&trim_exec(&head)), strings_of(&detail))
        },
    }
}

/// A detail line that reads as a shell command: it starts with `sudo `, a
/// `/`, or `Install`.
pub open spec fn command_like(line: Seq<char>) -> bool {
    starts_with(line, "sudo "@) || starts_with(line, "/"@) || starts_with(line, "Install"@)
}

/// Whether a detail line looks like a shell command.
pub fn is_command_line(line: &str) -> (r: bool)
    ensures
        r == command_like(line@),
{
    let l = chars_of(line);
    starts_with_exec(&l, &chars_of("sudo ")) || starts_with_exec(&l, &chars_of("/"))
        || starts_with_exec(&l, &chars_of("Install"))
}

/// The lines of `d` that do (or do not) read as commands, in order.
pub open spec fn select_lines(d: Seq<Seq<char>>, commands: bool) -> Seq<Seq<char>>
    decreases d.len(),
{
    if d.len() == 0 {
        seq![]
    } else {
        let rest = select_lines(d.drop_last(), commands);
        if command_like(d.last()) == commands {
            rest.push(d.last())
        } else {
            rest
        }
    }
}

/// Partition detail lines into prose (shown as text) and commands (shown
/// in the code card), each keeping its order.
pub fn partition_detail(detail: &Vec<String>) -> (r: (Vec<String>, Vec<String>))
    ensures
        strings_view(r.0@) == select_lines(strings_view(detail@), false),
        strings_view(r.1@) == select_lines(strings_view(detail@), true),
{
    let mut prose: Vec<String> = Vec::new();
    let mut commands: Vec<String> = Vec::new();
    let mut i: usize = 0;
    while i < detail.len()
        invariant
            i <= detail.len(),
            strings_view(prose@) == select_lines(strings_view(detail@).take(i as int), false),
            strings_view(commands@) == select_lines(strings_view(detail@).take(i as int), true),
        decreases detail.len() - i,
    {
        let ghost pre = strings_view(detail@).take(i as int);
        assert(strings_view(detail@).take(i + 1).drop_last() =~= pre);
        assert(strings_view(detail@).take(i + 1).last() == detail@[i as int]@);
        let ghost p0 = strings_view(prose@);
        let ghost c0 = strings_view(commands@);
        if is_command_line(detail[i].as_str()) {
            commands.push(detail[i].clone());
            assert(strings_view(commands@) =~= c0.push(detail@[i as int]@));
        } else {
            prose.push(detail[i].clone());
            assert(strings_view(prose@) =~= p0.push(detail@[i as int]@));
        }
        i += 1;
    }
    assert(strings_view(detail@).take(detail.len() as int) =~= strings_view(detail@));
    (prose, commands)
}

/// Every detail line lands in exactly one of the two groups: the groups'
/// sizes add up to the number of detail lines.
pub proof fn law_partition_is_complete(d: Seq<Seq<char>>)
    ensures
        select_lines(d, false).len() + select_lines(d, true).len() == d.len(),
    decreases d.len(),
{
    if d.len() > 0 {
        law_partition_is_complete(d.drop_last());
    }
}

} // verus!
