use vstd::prelude::*;

use vstd::string::StringExecFns;

verus! {

/// Whether the regular expression compiles and matches somewhere in the
/// text; a function of the pattern and the text alone.
pub uninterp spec fn regex_found(pattern: Seq<char>, text: Seq<char>) -> bool;

/// Relies on `regex::Regex::new` and `regex::Regex::is_match`: whether the
/// pattern compiles and matches somewhere in the text. Both are
/// deterministic in the pattern and the text.
#[verifier::external_body]
fn regex_is_match(pattern: &str, text: &str) -> (r: bool)
    ensures
        r == regex_found(pattern@, text@),
{
    match regex::Regex::new(pattern) {
        Ok(re) => re.is_match(text),
        Err(_) => false,
    }
}

/// The number of canned replies.
pub open spec fn static_reply_count() -> int {
    6
}

/// The pattern of the `i`-th canned reply, in priority order.
pub open spec fn static_pattern(i: int) -> Seq<char> {
    if i == 0 {
        "(?i)select version\\(\\) limit 1"@
    } else if i == 1 {
        "(?i)show engines"@
    } else if i == 2 {
        "SELECT 1 AS ping"@
    } else if i == 3 {
        "(?i)show global variables like 'read_only'"@
    } else if i == 4 {
        "(?i)select get_lock\\(.*\\) as lockstatus"@
    } else {
        "(?i)select release_lock\\(.*\\) as lockstatus"@
    }
}

/// The canned column/value pairs of the `i`-th reply.
pub open spec fn static_rows(i: int) -> Seq<(Seq<char>, Seq<char>)> {
    if i == 0 {
        seq![("version()"@, "10.1.26-MariaDB-0+deb9u1"@)]
    } else if i == 1 {
        seq![
            ("Engine"@, "InnoDB"@),
            ("Support"@, "DEFAULT"@),
            ("Comment"@, ""@),
            ("Transactions"@, "YES"@),
            ("XA"@, "YES"@),
            ("Savepoints"@, "YES"@),
        ]
    } else if i == 2 {
        seq![("ping"@, "1"@)]
    } else if i == 3 {
        seq![("Variable_name"@, "read_only"@), ("Value"@, "OFF"@)]
    } else {
        seq![("lockstatus"@, "1"@)]
    }
}

/// The first canned reply, at or after `i`, whose pattern matches the
/// query text.
pub open spec fn first_static_match_from(q: Seq<char>, i: int) -> Option<int>
    decreases static_reply_count() - i,
{
    if i < 0 || i >= static_reply_count() {
        None
    } else if regex_found(static_pattern(i), q) {
        Some(i)
    } else {
        first_static_match_from(q, i + 1)
    }
}

/// The model of a canned row set.
pub open spec fn rows_view(v: Seq<(String, String)>) -> Seq<(Seq<char>, Seq<char>)> {
    Seq::new(v.len(), |i: int| (v[i].0@, v[i].1@))
}

/// One canned column/value pair.
fn reply_pair(c: &str, v: &str) -> (r: (String, String))
    ensures
        r.0@ == c@,
        r.1@ == v@,
{
    (String::from_str(c), String::from_str(v))
}

/// Matches administrative and handshake probes against the fixed reply
/// table, in priority order; the first matching pattern's canned rows are
/// returned verbatim, whatever the query's own arguments were.
pub fn match_static(query: &str) -> (r: Option<Vec<(String, String)>>)
    ensures
        match first_static_match_from(query@, 0) {
            Some(i) => r matches Some(rows) && rows_view(rows@) == static_rows(i),
            None => r is None,
        },
{
    if regex_is_match("(?i)select version\\(\\) limit 1", query) {
        let mut rows: Vec<(String, String)> = Vec::new();
        rows.push(reply_pair("version()", "10.1.26-MariaDB-0+deb9u1"));
        proof {
            assert(rows_view(rows@) =~= static_rows(0));
        }
        return Some(rows);
    }
    proof {
        assert(first_static_match_from(query@, 0) == first_static_match_from(query@, 1));
    }
    if regex_is_match("(?i)show engines", query) {
        let mut rows: Vec<(String, String)> = Vec::new();
        rows.push(reply_pair("Engine", "InnoDB"));
        rows.push(reply_pair("Support", "DEFAULT"));
        rows.push(reply_pair("Comment", ""));
        rows.push(reply_pair("Transactions", "YES"));
        rows.push(reply_pair("XA", "YES"));
        rows.push(reply_pair("Savepoints", "YES"));
        proof {
            assert(rows_view(rows@) =~= static_rows(1));
        }
        return Some(rows);
    }
    proof {
        assert(first_static_match_from(query@, 1) == first_static_match_from(query@, 2));
    }
    if regex_is_match("SELECT 1 AS ping", query) {
        let mut rows: Vec<(String, String)> = Vec::new();
        rows.push(reply_pair("ping", "1"));
        proof {
            assert(rows_view(rows@) =~= static_rows(2));
        }
        return Some(rows);
    }
    proof {
        assert(first_static_match_from(query@, 2) == first_static_match_from(query@, 3));
    }
    if regex_is_match("(?i)show global variables like 'read_only'", query) {
        let mut rows: Vec<(String, String)> = Vec::new();
        rows.push(reply_pair("Variable_name", "read_only"));
        rows.push(reply_pair("Value", "OFF"));
        proof {
            assert(rows_view(rows@) =~= static_rows(3));
        }
        return Some(rows);
    }
    proof {
        assert(first_static_match_from(query@, 3) == first_static_match_from(query@, 4));
    }
    if regex_is_match("(?i)select get_lock\\(.*\\) as lockstatus", query) {
        let mut rows: Vec<(String, String)> = Vec::new();
        rows.push(reply_pair("lockstatus", "1"));
        proof {
            assert(rows_view(rows@) =~= static_rows(4));
        }
        return Some(rows);
    }
    proof {
        assert(first_static_match_from(query@, 4) == first_static_match_from(query@, 5));
    }
    if regex_is_match("(?i)select release_lock\\(.*\\) as lockstatus", query) {
        let mut rows: Vec<(String, String)> = Vec::new();
        rows.push(reply_pair("lockstatus", "1"));
        proof {
            assert(rows_view(rows@) =~= static_rows(5));
        }
        return Some(rows);
    }
    proof {
        assert(first_static_match_from(query@, 5) == first_static_match_from(query@, 6));
    }
    None
}

} // verus!
