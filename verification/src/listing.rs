use vstd::prelude::*;
use vstd::string::*;

use crate::git_object::{GitObject, GitObjectV};
use crate::git_object_type::GitObjectType;
use crate::text::{
    is_space_char, is_unicode_space, parse_dec_usize, parse_octal_u32, spec_dec_usize, spec_lines,
    spec_octal_u32, split_lines, split_ws, split_ws_str, str_eq_char,
};

verus! {

/// The object kind a type token denotes; any other token means the kind
/// is absent.
pub open spec fn spec_kind(tok: Seq<char>) -> Option<GitObjectType> {
    if tok == "commit"@ {
        Some(GitObjectType::Commit)
    } else if tok == "blob"@ {
        Some(GitObjectType::Blob)
    } else if tok == "tree"@ {
        Some(GitObjectType::Tree)
    } else {
        None
    }
}

/// The mode a mode token denotes: its octal value, or zero when the token
/// is not a well-formed octal number.  A malformed mode never aborts the
/// listing.
pub open spec fn spec_mode(tok: Seq<char>) -> u32 {
    match spec_octal_u32(tok) {
        Some(m) => m,
        None => 0,
    }
}

/// The record one listing line denotes.  A line matches when it carries
/// exactly five whitespace-separated fields — mode, type, name, size,
/// path — with no leading or trailing whitespace; any other line yields
/// no record.
pub open spec fn spec_parse_line(line: Seq<char>) -> Option<GitObjectV> {
    let toks = split_ws(line);
    if line.len() > 0 && !is_unicode_space(line[0]) && !is_unicode_space(line[line.len() - 1])
        && toks.len() == 5 {
        Some(
            GitObjectV {
                mode: spec_mode(toks[0]),
                obj_type: spec_kind(toks[1]),
                name: toks[2],
                size: spec_dec_usize(toks[3]),
                path: toks[4],
            },
        )
    } else {
        None
    }
}

/// The records of the lines from `i` on, appended to `acc`; lines that
/// match no record are dropped.
pub open spec fn parse_lines_from(ls: Seq<Seq<char>>, i: int, acc: Seq<GitObjectV>) -> Seq<
    GitObjectV,
>
    decreases ls.len() - i,
{
    if i < 0 || i >= ls.len() {
        acc
    } else {
        match spec_parse_line(ls[i]) {
            Some(v) => parse_lines_from(ls, i + 1, acc.push(v)),
            None => parse_lines_from(ls, i + 1, acc),
        }
    }
}

/// The records a whole listing denotes, in input order.
pub open spec fn spec_parse_tree(s: Seq<char>) -> Seq<GitObjectV> {
    parse_lines_from(spec_lines(s), 0, Seq::empty())
}

/// The view of an optional record.
pub open spec fn opt_record_view(r: Option<GitObject>) -> Option<GitObjectV> {
    match r {
        Some(o) => Some(o@),
        None => None,
    }
}

/// An input line that does not carry exactly five fields yields no
/// record and raises no error.
pub proof fn lemma_unmatched_line_dropped(line: Seq<char>)
    requires
        split_ws(line).len() != 5,
    ensures
        spec_parse_line(line) is None,
{
}

fn token_kind(tok: &String) -> (r: Option<GitObjectType>)
    ensures
        r == spec_kind(tok@),
{
    if str_eq_char(tok.as_str(), "commit") {
        Some(GitObjectType::Commit)
    } else if str_eq_char(tok.as_str(), "blob") {
        Some(GitObjectType::Blob)
    } else if str_eq_char(tok.as_str(), "tree") {
        Some(GitObjectType::Tree)
    } else {
        None
    }
}

fn parse_line(line: &str) -> (r: Option<GitObject>)
    ensures
        opt_record_view(r) == spec_parse_line(line@),
{
    let n = line.unicode_len();
    if n == 0 {
        return None;
    }
    if is_space_char(line.get_char(0)) {
        return None;
    }
    if is_space_char(line.get_char(n - 1)) {
        return None;
    }
    let mut toks = split_ws_str(line);
    let ghost toksv = split_ws(line@);
    if toks.len() != 5 {
        return None;
    }
    let path = toks.pop().unwrap();
    let size_tok = toks.pop().unwrap();
    let name = toks.pop().unwrap();
    let kind_tok = toks.pop().unwrap();
    let mode_tok = toks.pop().unwrap();
    proof {
        assert(mode_tok@ == toksv[0] && kind_tok@ == toksv[1] && name@ == toksv[2] && size_tok@
            == toksv[3] && path@ == toksv[4]);
    }
    let mode = match parse_octal_u32(mode_tok.as_str()) {
        Some(m) => m,
        None => 0,
    };
    let obj_type = token_kind(&kind_tok);
    let size = parse_dec_usize(size_tok.as_str());
    let o = GitObject::new(mode, obj_type, name, size, path);
    proof {
        assert(opt_record_view(Some(o)) =~= spec_parse_line(line@));
    }
    Some(o)
}

/// Converts one repository listing into structured records, one per
/// matching line, in input order.  Unmatched lines are silently skipped.
pub fn parse_tree(tree_string: &str) -> (objects: Vec<GitObject>)
    ensures
        objects@.map_values(|o: GitObject| o@) == spec_parse_tree(tree_string@),
{
    let lines = split_lines(tree_string);
    let ghost lsv = lines@.map_values(|l: String| l@);
    let mut objects: Vec<GitObject> = Vec::new();
    let mut i: usize = 0;
    proof {
        assert(objects@.map_values(|o: GitObject| o@) =~= Seq::<GitObjectV>::empty());
    }
    while i < lines.len()
        invariant
            i <= lines.len(),
            lsv == lines@.map_values(|l: String| l@),
            lsv == spec_lines(tree_string@),
            parse_lines_from(lsv, i as int, objects@.map_values(|o: GitObject| o@))
                == spec_parse_tree(tree_string@),
        decreases lines.len() - i,
    {
        let ghost old_objs = objects@.map_values(|o: GitObject| o@);
        let r = parse_line(lines[i].as_str());
        if let Some(o) = r {
            let ghost ov = o@;
            objects.push(o);
            proof {
                assert(objects@.map_values(|o: GitObject| o@) =~= old_objs.push(ov));
            }
        }
        i += 1;
    }
    objects
}

} // verus!
