//! Reading what the `wg` tool prints.

use vstd::prelude::*;
use vstd::string::*;
use crate::strmap::StrMap;
use crate::text::{parse_u64, parse_u64_spec, split_on, split_str, string_views};

verus! {

/// The received and sent byte counters of one peer.
pub type Transfer = (u64, u64);

/// Byte counters per peer (or per user), in ascending key order.
pub type UsageMap = StrMap<Transfer>;

/// The tool's output without its last character (the final newline), as
/// `String::pop` leaves it; an empty output stays empty.
pub open spec fn without_last_char(s: Seq<char>) -> Seq<char> {
    if s.len() > 0 {
        s.drop_last()
    } else {
        s
    }
}

/// One line of `wg show <interface> transfer`: the peer's key, then its
/// received and sent byte counts, separated by tabs (further fields are
/// ignored). `None` where the line has fewer than three fields or a count
/// that is not an unsigned 64-bit number.
pub open spec fn transfer_line(line: Seq<char>) -> Option<(Seq<char>, Transfer)> {
    let f = split_on(line, '\t');
    if f.len() >= 3 && parse_u64_spec(f[1]) is Some && parse_u64_spec(f[2]) is Some {
        Some((f[0], (parse_u64_spec(f[1])->0, parse_u64_spec(f[2])->0)))
    } else {
        None
    }
}

/// The counters of all lines, a later line for the same key replacing an
/// earlier one; `None` as soon as one line cannot be read.
pub open spec fn transfer_lines(lines: Seq<Seq<char>>) -> Option<Map<Seq<char>, Transfer>>
    decreases lines.len(),
{
    if lines.len() == 0 {
        Some(Map::empty())
    } else {
        match (transfer_lines(lines.drop_last()), transfer_line(lines.last())) {
            (Some(m), Some(entry)) => Some(m.insert(entry.0, entry.1)),
            _ => None,
        }
    }
}

/// The counters that the output of `wg show <interface> transfer` holds.
pub open spec fn current_stats(output: Seq<char>) -> Option<Map<Seq<char>, Transfer>> {
    transfer_lines(split_on(without_last_char(output), '\n'))
}

/// Reads one line of the transfer listing.
fn read_transfer_line(line: &str) -> (r: Option<(String, Transfer)>)
    ensures
        match r {
            Some(e) => transfer_line(line@) == Some((e.0@, e.1)),
            None => transfer_line(line@) is None,
        },
{
    let parts = split_str(line, '\t');
    proof {
        assert(string_views(parts@).len() == parts@.len());
    }
    if parts.len() < 3 {
        return None;
    }
    proof {
        assert(string_views(parts@)[1] == parts@[1]@);
        assert(string_views(parts@)[2] == parts@[2]@);
        assert(string_views(parts@)[0] == parts@[0]@);
    }
    let received = parse_u64(parts[1].as_str());
    let sent = parse_u64(parts[2].as_str());
    match (received, sent) {
        (Some(rx), Some(tx)) => Some((parts[0].clone(), (rx, tx))),
        _ => None,
    }
}

/// The byte counters per peer that `wg show <interface> transfer` printed
/// in `output`; `None` where a line of it cannot be read (where reading the
/// tool's output fails).
pub fn get_current_stats(output: &str) -> (r: Option<UsageMap>)
    ensures
        match r {
            Some(m) => m.wf() && current_stats(output@) == Some(m@),
            None => current_stats(output@) is None,
        },
{
    let n = output.unicode_len();
    let text = if n > 0 {
        output.substring_char(0, n - 1)
    } else {
        output
    };
    assert(text@ == without_last_char(output@)) by {
        if n > 0 {
            assert(output@.subrange(0, n - 1) =~= output@.drop_last());
        }
    }
    let lines = split_str(text, '\n');
    let ghost lv = split_on(text@, '\n');
    let mut data: UsageMap = StrMap::new();
    let mut i: usize = 0;
    assert(lv.take(0) =~= Seq::<Seq<char>>::empty());
    while i < lines.len()
        invariant
            string_views(lines@) == lv,
            lv == split_on(without_last_char(output@), '\n'),
            i <= lines@.len(),
            data.wf(),
            transfer_lines(lv.take(i as int)) == Some(data@),
        decreases lines@.len() - i,
    {
        assert(lv[i as int] == lines@[i as int]@);
        assert(lv.take(i + 1).drop_last() =~= lv.take(i as int));
        assert(lv.take(i + 1).last() == lv[i as int]);
        match read_transfer_line(lines[i].as_str()) {
            Some(entry) => {
                data.insert(entry.0, entry.1);
            },
            None => {
                proof {
                    lemma_transfer_lines_prefix_none(lv, i as int + 1);
                    assert(lv.take(lv.len() as int) =~= lv);
                }
                return None;
            },
        }
        i = i + 1;
    }
    assert(lv.take(lines@.len() as int) =~= lv);
    Some(data)
}

/// Once a prefix of the lines cannot be read, neither can the whole.
proof fn lemma_transfer_lines_prefix_none(lines: Seq<Seq<char>>, i: int)
    requires
        0 <= i <= lines.len(),
        transfer_lines(lines.take(i)) is None,
    ensures
        transfer_lines(lines) is None,
    decreases lines.len() - i,
{
    if i < lines.len() {
        assert(lines.take(i + 1).drop_last() =~= lines.take(i));
        lemma_transfer_lines_prefix_none(lines, i + 1);
    } else {
        assert(lines.take(i) =~= lines);
    }
}

/// A key as `wg genkey` or `wg pubkey` printed it, without its last
/// character (the final newline), as `String::pop` leaves it.
pub fn key_from_output(output: String) -> (key: String)
    ensures
        key@ == without_last_char(output@),
{
    let n = output.as_str().unicode_len();
    if n > 0 {
        let key = output.as_str().substring_char(0, n - 1).to_owned();
        assert(output@.subrange(0, n - 1) =~= output@.drop_last());
        key
    } else {
        output
    }
}

} // verus!
