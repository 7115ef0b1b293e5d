//! The line parser: one raw log line becomes a structured entry, or is
//! rejected when it holds fewer than six whitespace-separated tokens.

use vstd::prelude::*;
use crate::text::{
    split_ws, join_sp, colon_pos, trim_ws, u32_of_text, views_of, tokenize, join_tokens,
    find_colon, trim_ws_str, parse_u32,
};
use vstd::string::StrSliceExecFns;

verus! {

/// One structured log record, produced from one accepted raw line.
/// `package` is filled by the resolver after parsing; every other field
/// comes from the line itself.
#[derive(Debug, Clone)]
pub struct LogEntry {
    pub date: String,
    pub time: String,
    pub pid: Option<u32>,
    pub tid: Option<u32>,
    pub level: String,
    pub tag: String,
    pub package: Option<String>,
    pub message: String,
}

/// The mathematical content of a `LogEntry`: each textual field as its
/// character sequence.
pub ghost struct EntryModel {
    pub date: Seq<char>,
    pub time: Seq<char>,
    pub pid: Option<u32>,
    pub tid: Option<u32>,
    pub level: Seq<char>,
    pub tag: Seq<char>,
    pub package: Option<Seq<char>>,
    pub message: Seq<char>,
}

impl View for LogEntry {
    type V = EntryModel;

    open spec fn view(&self) -> EntryModel {
        EntryModel {
            date: self.date@,
            time: self.time@,
            pid: self.pid,
            tid: self.tid,
            level: self.level@,
            tag: self.tag@,
            package: match self.package {
                Some(p) => Some(p@),
                None => None,
            },
            message: self.message@,
        }
    }
}

/// What parsing a raw line yields: nothing when the line has fewer than six
/// tokens; otherwise tokens 0-4 become `date, time, pid, tid, level` (the
/// numeric fields absent when their token is not a decimal integer), and the
/// remaining tokens, joined with single spaces, split at their first colon
/// into a trimmed `tag` and a trimmed `message` (no colon: the whole
/// remainder is the tag and the message is empty). The package is not part
/// of parsing and starts absent.
pub open spec fn parse_spec(line: Seq<char>) -> Option<EntryModel> {
    let toks = split_ws(line);
    if toks.len() < 6 {
        None
    } else {
        let rem = join_sp(toks.subrange(5, toks.len() as int));
        let c = colon_pos(rem) as int;
        Some(
            EntryModel {
                date: toks[0],
                time: toks[1],
                pid: u32_of_text(toks[2]),
                tid: u32_of_text(toks[3]),
                level: toks[4],
                tag: if c < rem.len() {
                    trim_ws(rem.subrange(0, c))
                } else {
                    rem
                },
                package: None,
                message: if c < rem.len() {
                    trim_ws(rem.subrange(c + 1, rem.len() as int))
                } else {
                    Seq::empty()
                },
            },
        )
    }
}

/// Any line of at least six whitespace-separated tokens parses, and its
/// `date`, `time` and `level` are tokens 0, 1 and 4 verbatim; any line of
/// fewer tokens is rejected.
pub proof fn lemma_parse_iff_six_tokens(line: Seq<char>)
    ensures
        split_ws(line).len() >= 6 ==> (parse_spec(line) matches Some(m) && m.date == split_ws(
            line,
        )[0] && m.time == split_ws(line)[1] && m.level == split_ws(line)[4]),
        split_ws(line).len() < 6 ==> parse_spec(line) is None,
{
}

/// When the joined remainder of a parsed line holds no colon, the whole
/// remainder is the tag and the message is empty.
pub proof fn lemma_no_colon_whole_remainder_is_tag(line: Seq<char>)
    requires
        split_ws(line).len() >= 6,
        ({
            let toks = split_ws(line);
            let rem = join_sp(toks.subrange(5, toks.len() as int));
            colon_pos(rem) == rem.len()
        }),
    ensures
        parse_spec(line) matches Some(m) && m.message == Seq::<char>::empty() && m.tag == join_sp(
            split_ws(line).subrange(5, split_ws(line).len() as int),
        ),
{
}

/// A parsed line: the entry together with the raw text of its pid token,
/// which the resolver keys on even when that token is not a valid integer.
pub struct ParsedLine {
    pub entry: LogEntry,
    pub pid_text: String,
}

/// Parses one raw line. Returns the structured entry and the pid token's
/// text exactly when the line has at least six whitespace-separated tokens.
pub fn parse_line(raw: &str) -> (r: Option<ParsedLine>)
    ensures
        r is Some <==> parse_spec(raw@) is Some,
        r matches Some(p) ==> parse_spec(raw@) matches Some(m) && p.entry@ == m && p.pid_text@
            == split_ws(raw@)[2],
{
    let toks = tokenize(raw);
    let ghost tvs = views_of(toks@);
    if toks.len() < 6 {
        return None;
    }
    let rem = join_tokens(&toks, 5);
    proof {
        assert(tvs.subrange(5, tvs.len() as int) == split_ws(raw@).subrange(
            5,
            split_ws(raw@).len() as int,
        ));
    }
    let n = rem.as_str().unicode_len();
    let c = find_colon(rem.as_str());
    let (tag, message) = if c < n {
        let t = trim_ws_str(rem.as_str().substring_char(0, c));
        let m = trim_ws_str(rem.as_str().substring_char(c + 1, n));
        (t, m)
    } else {
        (rem, String::new())
    };
    let entry = LogEntry {
        date: toks[0].clone(),
        time: toks[1].clone(),
        pid: parse_u32(toks[2].as_str()),
        tid: parse_u32(toks[3].as_str()),
        level: toks[4].clone(),
        tag,
        package: None,
        message,
    };
    let pid_text = toks[2].clone();
    proof {
        assert(entry@ == parse_spec(raw@).unwrap());
    }
    Some(ParsedLine { entry, pid_text })
}

} // verus!
