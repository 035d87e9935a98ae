//! Selecting mount points to unmount before a write: scanning a
//! line-oriented mount table for entries whose source device is the
//! target device or one of its partitions.
//!
//! A mount table line is `<device> <mountpoint> ...`. A line selects its
//! mount point when it has at least the two fields and its device field
//! is prefixed by the target device's path (the whole disk or any of its
//! partitions, for example "/dev/sdb" and "/dev/sdb1").

use vstd::prelude::*;
use vstd::string::*;

use crate::text::find_token_end;
use crate::text::find_token_start;
use crate::text::starts_with;
use crate::text::str_starts_with;
use crate::text::token_end;
use crate::text::token_start;

verus! {

/// Index of the first newline at or after `from`, or the length of `s`.
pub open spec fn line_break(s: Seq<char>, from: int) -> int
    decreases s.len() - from when 0 <= from <= s.len()
{
    if from >= s.len() {
        s.len() as int
    } else if s[from] == '\n' {
        from
    } else {
        line_break(s, from + 1)
    }
}

pub proof fn lemma_line_break_bounds(s: Seq<char>, from: int)
    requires
        0 <= from <= s.len(),
    ensures
        from <= line_break(s, from) <= s.len(),
    decreases s.len() - from,
{
    if from < s.len() && s[from] != '\n' {
        lemma_line_break_bounds(s, from + 1);
    }
}

/// The lines of `s` from index `from` on, split on newline; a final
/// unterminated line counts too.
pub open spec fn lines_from(s: Seq<char>, from: int) -> Seq<Seq<char>>
    decreases s.len() - from when 0 <= from <= s.len() via lines_from_decreases
{
    if from >= s.len() {
        Seq::empty()
    } else {
        let e = line_break(s, from);
        if e >= s.len() {
            seq![s.subrange(from, e)]
        } else {
            seq![s.subrange(from, e)] + lines_from(s, e + 1)
        }
    }
}

#[via_fn]
proof fn lines_from_decreases(s: Seq<char>, from: int) {
    lemma_line_break_bounds(s, from);
}

/// The mount point a single table line selects for the device at `dev`,
/// if any.
pub open spec fn line_mount_point(line: Seq<char>, dev: Seq<char>) -> Option<Seq<char>> {
    let ts0 = token_start(line, 0);
    let te0 = token_end(line, ts0);
    let ts1 = token_start(line, te0);
    let te1 = token_end(line, ts1);
    if te0 > ts0 && te1 > ts1 && starts_with(line.subrange(ts0, te0), dev) {
        Some(line.subrange(ts1, te1))
    } else {
        None
    }
}

/// All mount points the table's lines select, in table order.
pub open spec fn mount_points_in(lines: Seq<Seq<char>>, dev: Seq<char>) -> Seq<Seq<char>>
    decreases lines.len(),
{
    if lines.len() == 0 {
        Seq::empty()
    } else {
        (match line_mount_point(lines[0], dev) {
            Some(m) => seq![m],
            None => Seq::empty(),
        }) + mount_points_in(lines.drop_first(), dev)
    }
}

/// The mount points to unmount before writing to the device at
/// `device_path`, given the live mount table's text.
pub open spec fn mount_points_spec(table: Seq<char>, device_path: Seq<char>) -> Seq<Seq<char>> {
    mount_points_in(lines_from(table, 0), device_path)
}

/// Find `line_break(s@, from)` by scanning.
fn find_line_break(s: &str, from: usize) -> (r: usize)
    requires
        from <= s@.len(),
    ensures
        r == line_break(s@, from as int),
        from <= r <= s@.len(),
{
    let n = s.unicode_len();
    let mut i: usize = from;
    loop
        invariant
            n == s@.len(),
            from <= i <= n,
            line_break(s@, from as int) == line_break(s@, i as int),
        ensures
            i == line_break(s@, from as int),
            from <= i <= n,
        decreases n - i,
    {
        if i >= n {
            break;
        }
        if s.get_char(i) == '\n' {
            break;
        }
        i = i + 1;
    }
    i
}

/// Decide one table line: its mount point, when its device field is
/// prefixed by `dev`.
pub fn mount_point_of_line(line: &str, dev: &str) -> (r: Option<String>)
    ensures
        r is Some <==> line_mount_point(line@, dev@) is Some,
        r matches Some(m) ==> line_mount_point(line@, dev@) == Some(m@),
{
    let ts0 = find_token_start(line, 0);
    let te0 = find_token_end(line, ts0);
    let ts1 = find_token_start(line, te0);
    let te1 = find_token_end(line, ts1);
    if te0 > ts0 && te1 > ts1 {
        let device_field = line.substring_char(ts0, te0);
        if str_starts_with(device_field, dev) {
            let m = line.substring_char(ts1, te1);
            Some(m.to_owned())
        } else {
            None
        }
    } else {
        None
    }
}

/// Scan the mount table for every mount point whose source device path is
/// prefixed by `device_path`, in table order. The caller unmounts each;
/// a failed unmount is its concern (non-fatal by design).
pub fn mount_points_to_unmount(table: &str, device_path: &str) -> (r: Vec<String>)
    ensures
        r.deep_view() == mount_points_spec(table@, device_path@),
{
    let n = table.unicode_len();
    let mut out: Vec<String> = Vec::new();
    let mut from: usize = 0;
    let mut done: bool = false;
    loop
        invariant
            n == table@.len(),
            0 <= from <= n,
            done ==> out.deep_view() == mount_points_spec(table@, device_path@),
            !done ==> out.deep_view() + mount_points_in(
                lines_from(table@, from as int),
                device_path@,
            ) == mount_points_spec(table@, device_path@),
        ensures
            out.deep_view() == mount_points_spec(table@, device_path@),
        decreases n - from + if done {
            0int
        } else {
            1int
        },
    {
        if done {
            break;
        }
        if from >= n {
            proof {
                assert(lines_from(table@, from as int) =~= Seq::<Seq<char>>::empty());
                assert(out.deep_view() + Seq::<Seq<char>>::empty() =~= out.deep_view());
            }
            break;
        }
        let e = find_line_break(table, from);
        let line = table.substring_char(from, e);
        let ghost rest_lines = lines_from(table@, from as int);
        proof {
            assert(rest_lines[0] == table@.subrange(from as int, e as int));
        }
        match mount_point_of_line(line, device_path) {
            Some(m) => {
                let ghost before = out.deep_view();
                let ghost mv = m@;
                out.push(m);
                proof {
                    assert(out.deep_view() =~= before.push(mv));
                    assert(before.push(mv) + mount_points_in(
                        rest_lines.drop_first(),
                        device_path@,
                    ) =~= before + (seq![mv] + mount_points_in(
                        rest_lines.drop_first(),
                        device_path@,
                    )));
                }
            },
            None => {
                proof {
                    assert(Seq::<Seq<char>>::empty() + mount_points_in(
                        rest_lines.drop_first(),
                        device_path@,
                    ) =~= mount_points_in(rest_lines.drop_first(), device_path@));
                }
            },
        }
        if e >= n {
            proof {
                assert(rest_lines.drop_first() =~= Seq::<Seq<char>>::empty());
                assert(mount_points_in(Seq::<Seq<char>>::empty(), device_path@)
                    =~= Seq::<Seq<char>>::empty());
                assert(out.deep_view() + Seq::<Seq<char>>::empty() =~= out.deep_view());
            }
            done = true;
        } else {
            proof {
                assert(rest_lines.drop_first() =~= lines_from(table@, e + 1));
            }
            from = e + 1;
        }
    }
    out
}

} // verus!
