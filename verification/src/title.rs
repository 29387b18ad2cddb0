//! The window title: `<name> - <position>/<count> - Rim`, with the source
//! size spliced in as `(<w> x <h>)` when it is known. Position counts from
//! one. Nothing is produced for an empty gallery or for a path that no file
//! name can be made out of.

use vstd::prelude::*;
use vstd::string::StringExecFns;
use crate::paths::file_name;
use crate::paths::file_name_of;
use crate::viewer::Viewer;

verus! {

/// The decimal digit character for `d`.
pub open spec fn digit_char(d: nat) -> char {
    if d == 0 {
        '0'
    } else if d == 1 {
        '1'
    } else if d == 2 {
        '2'
    } else if d == 3 {
        '3'
    } else if d == 4 {
        '4'
    } else if d == 5 {
        '5'
    } else if d == 6 {
        '6'
    } else if d == 7 {
        '7'
    } else if d == 8 {
        '8'
    } else {
        '9'
    }
}

/// The decimal numeral of `n`, most significant digit first, without
/// leading zeroes (a single zero for zero itself).
pub open spec fn dec_rep(n: nat) -> Seq<char>
    decreases n,
{
    if n < 10 {
        seq![digit_char(n)]
    } else {
        dec_rep(n / 10).push(digit_char(n % 10))
    }
}

/// The one-character string of decimal digit `d`.
fn digit_str(d: u64) -> (s: String)
    requires
        d < 10,
    ensures
        s@ == seq![digit_char(d as nat)],
{
    let lit = if d == 0 {
        "0"
    } else if d == 1 {
        "1"
    } else if d == 2 {
        "2"
    } else if d == 3 {
        "3"
    } else if d == 4 {
        "4"
    } else if d == 5 {
        "5"
    } else if d == 6 {
        "6"
    } else if d == 7 {
        "7"
    } else if d == 8 {
        "8"
    } else {
        "9"
    };
    proof {
        reveal_strlit("0");
        reveal_strlit("1");
        reveal_strlit("2");
        reveal_strlit("3");
        reveal_strlit("4");
        reveal_strlit("5");
        reveal_strlit("6");
        reveal_strlit("7");
        reveal_strlit("8");
        reveal_strlit("9");
        assert(lit@ =~= seq![digit_char(d as nat)]);
    }
    String::from_str(lit)
}

/// The decimal numeral of `n`.
pub fn u64_to_string(n: u64) -> (s: String)
    ensures
        s@ == dec_rep(n as nat),
    decreases n,
{
    if n < 10 {
        digit_str(n)
    } else {
        let mut s = u64_to_string(n / 10);
        let d = digit_str(n % 10);
        s.append(d.as_str());
        proof {
            assert(s@ =~= dec_rep(n as nat));
        }
        s
    }
}

/// The title text for a file name, a one-based position, a member count
/// and a source size; the size is omitted while it is the unknown
/// sentinel 0 by 0.
pub open spec fn title_seq(name: Seq<char>, pos1: nat, count: nat, w: nat, h: nat) -> Seq<char> {
    if w == 0 && h == 0 {
        name + " - "@ + dec_rep(pos1) + "/"@ + dec_rep(count) + " - Rim"@
    } else {
        name + " - "@ + dec_rep(pos1) + "/"@ + dec_rep(count) + " - ("@ + dec_rep(w) + " x "@
            + dec_rep(h) + ") - Rim"@
    }
}

impl Viewer {
    /// The window title for what is on show, or nothing when the gallery is
    /// empty or its current path yields no file name.
    pub fn title(&self) -> (r: Option<String>)
        requires
            self.wf(),
        ensures
            match r {
                Some(t) => {
                    &&& self.spec_gallery().spec_len() > 0
                    &&& file_name_of(self.spec_gallery().current()) is Some
                    &&& t@ == title_seq(
                        file_name_of(self.spec_gallery().current()).unwrap(),
                        (self.spec_gallery().cursor() + 1) as nat,
                        self.spec_gallery().spec_len() as nat,
                        self.source().0 as nat,
                        self.source().1 as nat,
                    )
                },
                None => self.spec_gallery().spec_len() == 0 || file_name_of(
                    self.spec_gallery().current(),
                ) is None,
            },
    {
        let path = match self.gallery().get() {
            Some(p) => p,
            None => {
                return None;
            },
        };
        let name = match file_name(path.as_str()) {
            Some(n) => n,
            None => {
                return None;
            },
        };
        let pos = self.gallery().position();
        let count = self.gallery().size();
        let dims = self.source_dimensions();
        let mut t = name;
        t.append(" - ");
        let p1 = u64_to_string(pos as u64 + 1);
        t.append(p1.as_str());
        t.append("/");
        let cnt = u64_to_string(count as u64);
        t.append(cnt.as_str());
        if dims.0 == 0 && dims.1 == 0 {
            t.append(" - Rim");
        } else {
            t.append(" - (");
            let ws = u64_to_string(dims.0 as u64);
            t.append(ws.as_str());
            t.append(" x ");
            let hs = u64_to_string(dims.1 as u64);
            t.append(hs.as_str());
            t.append(") - Rim");
        }
        proof {
            assert(t@ =~= title_seq(
                file_name_of(self.spec_gallery().current()).unwrap(),
                (self.spec_gallery().cursor() + 1) as nat,
                self.spec_gallery().spec_len() as nat,
                self.source().0 as nat,
                self.source().1 as nat,
            ));
        }
        Some(t)
    }
}

} // verus!
