//! The list of containers as a table.

use vstd::prelude::*;
use vstd::string::*;

use crate::runtime::lifecycle::StatusList;
use crate::runtime::status::{state_name, ContainerState, Status};
use crate::text::{decimal, decimal_text, views};

verus! {

/// A text, filled with spaces up to a width.
pub open spec fn padded(text: Seq<char>, width: nat) -> Seq<char> {
    if text.len() >= width {
        text
    } else {
        text + Seq::new((width - text.len()) as nat, |i: int| ' ')
    }
}

/// A line of the table: three columns of fixed width and one more.
pub open spec fn table_line(
    id: Seq<char>,
    state: Seq<char>,
    pid: Seq<char>,
    bundle: Seq<char>,
) -> Seq<char> {
    padded(id, 14) + " "@ + padded(state, 10) + " "@ + padded(pid, 8) + " "@ + bundle
}

/// A process id in the table: a hyphen when there is none.
pub open spec fn pid_text(pid: Option<u32>) -> Seq<char> {
    match pid {
        Some(pid) => decimal(pid as nat),
        None => "-"@,
    }
}

/// The line of a container.
pub open spec fn status_line(status: Status) -> Seq<char> {
    table_line(status.id, state_name(status.state), pid_text(status.pid), status.bundle)
}

/// The lines of the table of containers.
pub open spec fn table(list: Seq<Status>) -> Seq<Seq<char>> {
    if list.len() == 0 {
        seq!["No containers found."@]
    } else {
        seq![table_line("ID"@, "STATE"@, "PID"@, "BUNDLE"@)] + list.map_values(
            |status: Status| status_line(status),
        )
    }
}

fn append_padded(line: &mut String, text: &str, width: usize)
    ensures
        final(line)@ == old(line)@ + padded(text@, width as nat),
{
    proof {
        reveal_strlit(" ");
    }
    let ghost before = line@;
    let len = text.unicode_len();
    line.append(text);
    let mut filled: usize = len;
    assert(line@ =~= before + text@ + Seq::new(0, |i: int| ' '));
    while filled < width
        invariant
            " "@ == seq![' '],
            len == text@.len(),
            len <= filled,
            filled <= width || filled == len,
            line@ == before + text@ + Seq::new((filled - len) as nat, |i: int| ' '),
        decreases width - filled,
    {
        line.append(" ");
        filled = filled + 1;
        assert(line@ =~= before + text@ + Seq::new((filled - len) as nat, |i: int| ' '));
    }
    assert(line@ =~= before + padded(text@, width as nat));
}

fn line_of(id: &str, state: &str, pid: &str, bundle: &str) -> (r: String)
    ensures
        r@ == table_line(id@, state@, pid@, bundle@),
{
    let mut line = String::new();
    append_padded(&mut line, id, 14);
    assert(line@ =~= padded(id@, 14));
    line.append(" ");
    append_padded(&mut line, state, 10);
    line.append(" ");
    append_padded(&mut line, pid, 8);
    line.append(" ");
    line.append(bundle);
    line
}

/// The lines of the table of containers.
pub fn status_table(containers: &StatusList) -> (r: Vec<String>)
    ensures
        views(r@) == table(containers@),
{
    let list = &containers.list;
    assert(containers@.len() == list@.len());
    if list.len() == 0 {
        let r = vec!["No containers found.".to_owned()];
        assert(views(r@) =~= table(containers@));
        return r;
    }
    let mut r = vec![line_of("ID", "STATE", "PID", "BUNDLE")];
    let ghost wanted = table(containers@);
    let mut i: usize = 0;
    assert(views(r@) =~= wanted.take(1));
    while i < list.len()
        invariant
            i <= list@.len(),
            list@.len() > 0,
            containers.list == list,
            wanted == table(containers@),
            views(r@) == wanted.take(i + 1),
        decreases list@.len() - i,
    {
        let ghost before = views(r@);
        let status = &list[i];
        let pid = match status.pid {
            Some(pid) => decimal_text(pid as u64),
            None => "-".to_owned(),
        };
        assert(containers@[i as int] == status@);
        r.push(
            line_of(
                status.id.as_str(),
                status.state.to_string().as_str(),
                pid.as_str(),
                status.bundle.as_str(),
            ),
        );
        assert(wanted[i + 1] == status_line(status@));
        assert(views(r@) =~= before.push(wanted[i + 1]));
        assert(wanted.take(i + 2) =~= wanted.take(i + 1).push(wanted[i + 1]));
        i = i + 1;
    }
    assert(wanted.take(i + 1) =~= wanted);
    r
}

/// Whether a text stands in a line from the column `at` on, with nothing but spaces after
/// it up to the column `to`.
pub open spec fn stands_at(line: Seq<char>, text: Seq<char>, at: int, to: int) -> bool {
    &&& 0 <= at
    &&& at + text.len() <= to <= line.len()
    &&& forall|i: int| 0 <= i < text.len() ==> #[trigger] line[at + i] == text[i]
    &&& forall|i: int| at + text.len() <= i < to ==> #[trigger] line[i] == ' '
}

/// Whether a line of the table has these texts in its columns. A column that is too narrow
/// for its text moves those after it to the right.
pub open spec fn has_columns(
    line: Seq<char>,
    id: Seq<char>,
    state: Seq<char>,
    pid: Seq<char>,
    bundle: Seq<char>,
) -> bool {
    let a = if id.len() > 14 {
        id.len() + 1
    } else {
        15
    };
    let b = a + if state.len() > 10 {
        state.len() + 1
    } else {
        11
    };
    let c = b + if pid.len() > 8 {
        pid.len() + 1
    } else {
        9
    };
    &&& stands_at(line, id, 0, a as int)
    &&& stands_at(line, state, a as int, b as int)
    &&& stands_at(line, pid, b as int, c as int)
    &&& stands_at(line, bundle, c as int, line.len() as int)
    &&& line.len() == c + bundle.len()
}

proof fn line_has_its_columns(id: Seq<char>, state: Seq<char>, pid: Seq<char>, bundle: Seq<char>)
    ensures
        has_columns(table_line(id, state, pid, bundle), id, state, pid, bundle),
{
    reveal_strlit(" ");
    let line = table_line(id, state, pid, bundle);
    let a = padded(id, 14) + " "@;
    let b = padded(state, 10) + " "@;
    let c = padded(pid, 8) + " "@;
    assert(line =~= a + b + c + bundle);
    assert forall|i: int| 0 <= i < id.len() implies #[trigger] line[0 + i] == id[i] by {
        assert(line[i] == a[i]);
    }
    assert forall|i: int| id.len() <= i < a.len() implies #[trigger] line[i] == ' ' by {
        assert(line[i] == a[i]);
    }
    assert forall|i: int| 0 <= i < state.len() implies #[trigger] line[a.len() + i] == state[i] by {
        assert(line[a.len() + i] == b[i]);
    }
    assert forall|i: int|
        a.len() + state.len() <= i < a.len() + b.len() implies #[trigger] line[i] == ' ' by {
        assert(line[i] == b[i - a.len()]);
    }
    let d = (a.len() + b.len()) as int;
    assert forall|i: int| 0 <= i < pid.len() implies #[trigger] line[d + i] == pid[i] by {
        assert(line[d + i] == c[i]);
    }
    assert forall|i: int| d + pid.len() <= i < d + c.len() implies #[trigger] line[i] == ' ' by {
        assert(line[i] == c[i - d]);
    }
    let e = d + c.len();
    assert forall|i: int| 0 <= i < bundle.len() implies #[trigger] line[e + i] == bundle[i] by {
    }
}

/// The table has a heading and one line for each container, in order, which shows the id,
/// the name of the state, the process id in decimal or a hyphen, and the bundle.
pub proof fn table_shows_every_container(list: Seq<Status>)
    requires
        list.len() > 0,
    ensures
        table(list).len() == list.len() + 1,
        has_columns(table(list)[0], "ID"@, "STATE"@, "PID"@, "BUNDLE"@),
        forall|i: int|
            0 <= i < list.len() ==> has_columns(
                table(list)[i + 1],
                (#[trigger] list[i]).id,
                match list[i].state {
                    ContainerState::Creating => "creating"@,
                    ContainerState::Created => "created"@,
                    ContainerState::Running => "running"@,
                    ContainerState::Stopped => "stopped"@,
                },
                match list[i].pid {
                    Some(pid) => decimal(pid as nat),
                    None => "-"@,
                },
                list[i].bundle,
            ),
{
    line_has_its_columns("ID"@, "STATE"@, "PID"@, "BUNDLE"@);
    assert forall|i: int| 0 <= i < list.len() implies has_columns(
        table(list)[i + 1],
        (#[trigger] list[i]).id,
        state_name(list[i].state),
        pid_text(list[i].pid),
        list[i].bundle,
    ) by {
        let status = list[i];
        line_has_its_columns(
            status.id,
            state_name(status.state),
            pid_text(status.pid),
            status.bundle,
        );
        assert(table(list)[i + 1] == status_line(status));
    }
}

} // verus!
