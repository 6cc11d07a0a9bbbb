//! Markdown pieces that every generated page uses: the dependency edges of
//! the workspace, and the member lists.
use crate::text::{
    append2, append5, append_item_lines, item_lines, views, Form,
};
use crate::workspace::{
    relative_display, relative_path_text, DependencyMap, WorkspaceMember,
};
use vstd::prelude::*;
use vstd::string::StringExecFns;

verus! {

/// One line per edge of the dependency map: `pre`, the crate, `mid`, the
/// dependency, `suf`, crate by crate.
pub open spec fn edge_lines(
    acc: Seq<char>,
    map: Seq<(Seq<char>, Seq<Seq<char>>)>,
    pre: Seq<char>,
    mid: Seq<char>,
    suf: Seq<char>,
) -> Seq<char>
    decreases map.len(),
{
    if map.len() == 0 {
        acc
    } else {
        item_lines(
            edge_lines(acc, map.drop_last(), pre, mid, suf),
            map.last().1,
            pre + map.last().0 + mid,
            Form::Same,
            suf,
        )
    }
}

/// Appends one line per edge of the dependency map.
pub fn append_edge_lines(out: &mut String, map: &DependencyMap, pre: &str, mid: &str, suf: &str)
    ensures
        final(out)@ == edge_lines(old(out)@, map@, pre@, mid@, suf@),
{
    let mut i: usize = 0;
    while i < map.len()
        invariant
            i <= map@.len(),
            out@ == edge_lines(old(out)@, map@.take(i as int), pre@, mid@, suf@),
        decreases map@.len() - i,
    {
        assert(map@.take(i + 1).drop_last() =~= map@.take(i as int));
        let name = map.name_at(i);
        let deps = map.deps_at(i);
        let mut head = String::from_str(pre);
        append2(&mut head, name.as_str(), mid);
        append_item_lines(out, &deps, head.as_str(), Form::Same, suf);
        i = i + 1;
    }
    assert(map@.take(i as int) =~= map@);
}

/// The names of the members, in order.
pub open spec fn member_names(ms: Seq<WorkspaceMember>) -> Seq<Seq<char>> {
    ms.map_values(|m: WorkspaceMember| m.name@)
}

pub fn names_of_members(members: &Vec<WorkspaceMember>) -> (r: Vec<String>)
    ensures
        views(r@) == member_names(members@),
{
    let mut r: Vec<String> = Vec::new();
    let mut i: usize = 0;
    while i < members.len()
        invariant
            i <= members.len(),
            r@.len() == i,
            forall|j: int| 0 <= j < i ==> #[trigger] r@[j]@ == members@[j].name@,
        decreases members.len() - i,
    {
        r.push(members[i].name.clone());
        i = i + 1;
    }
    assert(views(r@) =~= member_names(members@));
    r
}

/// One README line per member: its name and its path below the project.
pub open spec fn member_paths(acc: Seq<char>, members: Seq<WorkspaceMember>, project: Seq<char>) -> Seq<
    char,
>
    decreases members.len(),
{
    if members.len() == 0 {
        acc
    } else {
        let m = members.last();
        member_paths(acc, members.drop_last(), project) + "- **"@ + m.name@ + "**: `"@
            + relative_path_text(m.path@, project) + "`\n"@
    }
}

/// Appends one README line per member: its name and its path below the project.
pub fn write_member_paths(out: &mut String, members: &Vec<WorkspaceMember>, project: &str)
    ensures
        final(out)@ == member_paths(old(out)@, members@, project@),
{
    let mut i: usize = 0;
    while i < members.len()
        invariant
            i <= members.len(),
            out@ == member_paths(old(out)@, members@.take(i as int), project@),
        decreases members.len() - i,
    {
        assert(members@.take(i + 1).drop_last() =~= members@.take(i as int));
        let m = &members[i];
        let rel = relative_display(m.path.as_str(), project);
        append5(out, "- **", m.name.as_str(), "**: `", rel.as_str(), "`\n");
        i = i + 1;
    }
    assert(members@.take(i as int) =~= members@);
}

} // verus!
