//! Names the synchronizer writes: the local branch `pull-request-<number>`
//! and the remote and refspec arguments handed to the fetch boundary.

use vstd::prelude::*;
use vstd::string::StringExecFns;

verus! {

/// The decimal digit character for `d`.
pub open spec fn digit_char(d: int) -> char {
    if d == 0 {
        '0'
    } else if d == 1 {
        '1'
    } else if d == 2 {
        '2'
    } else if d == 3 {
        '3'
    } else if d == 4 {
        '4'
    } else if d == 5 {
        '5'
    } else if d == 6 {
        '6'
    } else if d == 7 {
        '7'
    } else if d == 8 {
        '8'
    } else {
        '9'
    }
}

/// The decimal digits of `n`, most significant first, no leading zeros
/// (a single zero for zero itself).
pub open spec fn dec_digits(n: int) -> Seq<char>
    decreases n,
{
    if n < 10 {
        seq![digit_char(n)]
    } else {
        dec_digits(n / 10).push(digit_char(n % 10))
    }
}

/// The one-character string for a decimal digit.
fn digit_str(d: u32) -> (r: &'static str)
    requires
        d < 10,
    ensures
        r@ == seq![digit_char(d as int)],
{
    proof {
        reveal_strlit("0");
        reveal_strlit("1");
        reveal_strlit("2");
        reveal_strlit("3");
        reveal_strlit("4");
        reveal_strlit("5");
        reveal_strlit("6");
        reveal_strlit("7");
        reveal_strlit("8");
        reveal_strlit("9");
    }
    match d {
        0 => "0",
        1 => "1",
        2 => "2",
        3 => "3",
        4 => "4",
        5 => "5",
        6 => "6",
        7 => "7",
        8 => "8",
        _ => "9",
    }
}

/// Append the decimal form of `n` to `s`.
fn push_decimal(s: &mut String, n: u32)
    ensures
        final(s)@ == old(s)@ + dec_digits(n as int),
    decreases n,
{
    let ghost base = s@;
    if n >= 10 {
        push_decimal(s, n / 10);
    }
    s.append(digit_str(n % 10));
    proof {
        if n < 10 {
            assert(n % 10 == n as int);
            assert(s@ =~= base + dec_digits(n as int));
        } else {
            assert(s@ =~= base + dec_digits(n as int));
        }
    }
}

/// The local branch name the synchronizer owns for a pull request.
pub open spec fn spec_branch_name(number: u32) -> Seq<char> {
    "pull-request-"@ + dec_digits(number as int)
}

/// `pull-request-<number>`, the local branch for this pull request.
pub fn branch_name_for(number: u32) -> (r: String)
    ensures
        r@ == spec_branch_name(number),
{
    let mut s: String = "pull-request-".to_owned();
    push_decimal(&mut s, number);
    s
}

/// The remote argument of the fetch boundary.
pub open spec fn spec_remote_spec(owner: Seq<char>, repo: Seq<char>) -> Seq<char> {
    "git@github.com:"@ + owner + "/"@ + repo
}

/// `git@github.com:<owner>/<repo>`, where the fetch reaches the fork.
pub fn remote_spec_for(owner: &str, repo: &str) -> (r: String)
    ensures
        r@ == spec_remote_spec(owner@, repo@),
{
    let mut s: String = "git@github.com:".to_owned();
    s.append(owner);
    s.append("/");
    s.append(repo);
    proof {
        assert(s@ =~= spec_remote_spec(owner@, repo@));
    }
    s
}

/// The refspec argument of the fetch boundary.
pub open spec fn spec_refspec(source_branch: Seq<char>, number: u32) -> Seq<char> {
    source_branch + ":"@ + spec_branch_name(number)
}

/// `<source-branch>:pull-request-<number>`, what the fetch writes where.
pub fn refspec_for(source_branch: &str, number: u32) -> (r: String)
    ensures
        r@ == spec_refspec(source_branch@, number),
{
    let mut s: String = source_branch.to_owned();
    s.append(":");
    let name = branch_name_for(number);
    s.append(name.as_str());
    proof {
        assert(s@ =~= spec_refspec(source_branch@, number));
    }
    s
}

} // verus!
