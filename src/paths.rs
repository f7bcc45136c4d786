//! Home-relative paths.
use vstd::prelude::*;
use vstd::string::StrSliceExecFns;

verus! {

/// `s` with a leading `~/` replaced by `home` and a slash.
pub open spec fn expanded(s: Seq<char>, home: Seq<char>) -> Seq<char> {
    if s.len() >= 2 && s[0] == '~' && s[1] == '/' {
        home + seq!['/'] + s.subrange(2, s.len() as int)
    } else {
        s
    }
}

/// Expands a leading `~/` in `s` to the home directory `home`; any other
/// text is returned as it is.
pub fn expand_tilde(s: &str, home: &str) -> (r: String)
    ensures
        r@ == expanded(s@, home@),
{
    let n = s.unicode_len();
    if n >= 2 && s.get_char(0) == '~' && s.get_char(1) == '/' {
        let rest = s.substring_char(2, n);
        let r = String::from_str(home).concat("/").concat(rest);
        proof {
            reveal_strlit("/");
        }
        assert(r@ =~= expanded(s@, home@));
        r
    } else {
        String::from_str(s)
    }
}

} // verus!
