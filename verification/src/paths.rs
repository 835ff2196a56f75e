//! Output path construction.

use crate::error::CssError;
use vstd::prelude::*;
use vstd::string::*;

verus! {

/// The blank characters — Unicode whitespace, the set `char::is_whitespace`
/// accepts: a name made only of these is rejected.
pub open spec fn spec_is_space(c: char) -> bool {
    ||| c == ' '
    ||| c == '\t'
    ||| c == '\n'
    ||| c == '\r'
    ||| c == '\u{b}'
    ||| c == '\u{c}'
    ||| c == '\u{85}'
    ||| c == '\u{a0}'
    ||| c == '\u{1680}'
    ||| c == '\u{2000}'
    ||| c == '\u{2001}'
    ||| c == '\u{2002}'
    ||| c == '\u{2003}'
    ||| c == '\u{2004}'
    ||| c == '\u{2005}'
    ||| c == '\u{2006}'
    ||| c == '\u{2007}'
    ||| c == '\u{2008}'
    ||| c == '\u{2009}'
    ||| c == '\u{200a}'
    ||| c == '\u{2028}'
    ||| c == '\u{2029}'
    ||| c == '\u{202f}'
    ||| c == '\u{205f}'
    ||| c == '\u{3000}'
}

/// Whether one character is a blank.
fn is_space(c: char) -> (r: bool)
    ensures
        r == spec_is_space(c),
{
    c == ' ' || c == '\t' || c == '\n' || c == '\r' || c == '\u{b}' || c == '\u{c}' || c == '\u{85}'
        || c == '\u{a0}' || c == '\u{1680}' || c == '\u{2000}' || c == '\u{2001}' || c == '\u{2002}'
        || c == '\u{2003}' || c == '\u{2004}' || c == '\u{2005}' || c == '\u{2006}' || c
        == '\u{2007}' || c == '\u{2008}' || c == '\u{2009}' || c == '\u{200a}' || c == '\u{2028}'
        || c == '\u{2029}' || c == '\u{202f}' || c == '\u{205f}' || c == '\u{3000}'
}

/// A text consisting only of blanks (the empty text counts).
pub open spec fn spec_is_blank(s: Seq<char>) -> bool {
    forall|i: int| 0 <= i < s.len() ==> spec_is_space(#[trigger] s[i])
}

/// Joining a directory and a file name: an absolute file name stands
/// alone; otherwise exactly one separator lies between the two.
pub open spec fn spec_join(dir: Seq<char>, name: Seq<char>) -> Seq<char> {
    if name.len() > 0 && name[0] == '/' {
        name
    } else if dir.len() > 0 && dir[dir.len() - 1] == '/' {
        dir + name
    } else {
        dir + seq!['/'] + name
    }
}

/// Whether the text consists only of blanks.
fn is_blank(s: &str) -> (r: bool)
    ensures
        r == spec_is_blank(s@),
{
    let n = s.unicode_len();
    let mut i: usize = 0;
    while i < n
        invariant
            n == s@.len(),
            0 <= i <= n,
            forall|j: int| 0 <= j < i ==> spec_is_space(#[trigger] s@[j]),
        decreases n - i,
    {
        let c = s.get_char(i);
        if !is_space(c) {
            return false;
        }
        i = i + 1;
    }
    true
}

/// Builds the full output path for a file name inside a directory.
///
/// Fails when the file name, then when the directory, consists only of
/// blanks; otherwise returns the joined path.
pub fn create_path_from_file_name(file_name: &str, output_dir: &str) -> (r: Result<
    String,
    CssError,
>)
    ensures
        spec_is_blank(file_name@) ==> r == Err::<String, CssError>(CssError::EmptyFileName),
        !spec_is_blank(file_name@) && spec_is_blank(output_dir@) ==> r == Err::<String, CssError>(
            CssError::EmptyOutputDir,
        ),
        !spec_is_blank(file_name@) && !spec_is_blank(output_dir@) ==> r is Ok && r->Ok_0@
            == spec_join(output_dir@, file_name@),
{
    if is_blank(file_name) {
        return Err(CssError::EmptyFileName);
    }
    if is_blank(output_dir) {
        return Err(CssError::EmptyOutputDir);
    }
    let nlen = file_name.unicode_len();
    if nlen > 0 && file_name.get_char(0) == '/' {
        return Ok(String::from_str(file_name));
    }
    let mut p = String::from_str(output_dir);
    let dlen = output_dir.unicode_len();
    let ends_sep = dlen > 0 && output_dir.get_char(dlen - 1) == '/';
    if !ends_sep {
        proof {
            reveal_strlit("/");
        }
        p.append("/");
        proof {
            assert(p@ =~= output_dir@ + seq!['/']);
        }
    }
    p.append(file_name);
    proof {
        if nlen == 0 {
            assert(spec_is_blank(file_name@));
        }
        assert(p@ =~= spec_join(output_dir@, file_name@));
    }
    Ok(p)
}

} // verus!
