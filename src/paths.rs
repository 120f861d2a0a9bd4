use vstd::prelude::*;

verus! {

pub open spec fn digit_of(d: nat) -> char {
    if d == 0 {
        '0'
    } else if d == 1 {
        '1'
    } else if d == 2 {
        '2'
    } else if d == 3 {
        '3'
    } else if d == 4 {
        '4'
    } else if d == 5 {
        '5'
    } else if d == 6 {
        '6'
    } else if d == 7 {
        '7'
    } else if d == 8 {
        '8'
    } else {
        '9'
    }
}

/// The decimal digits of `n`, most significant first, without leading
/// zeros.
pub open spec fn digits_of(n: nat) -> Seq<char>
    decreases n,
{
    if n < 10 {
        seq![digit_of(n)]
    } else {
        digits_of(n / 10).push(digit_of(n % 10))
    }
}

/// An integer in decimal, with a minus sign when negative.
pub open spec fn decimal_text(x: int) -> Seq<char> {
    if x < 0 {
        seq!['-'] + digits_of((-x) as nat)
    } else {
        digits_of(x as nat)
    }
}

fn digit_str(d: u64) -> (r: &'static str)
    requires
        d < 10,
    ensures
        r@ == seq![digit_of(d as nat)],
{
    if d == 0 {
        proof {
            reveal_strlit("0");
        }
        "0"
    } else if d == 1 {
        proof {
            reveal_strlit("1");
        }
        "1"
    } else if d == 2 {
        proof {
            reveal_strlit("2");
        }
        "2"
    } else if d == 3 {
        proof {
            reveal_strlit("3");
        }
        "3"
    } else if d == 4 {
        proof {
            reveal_strlit("4");
        }
        "4"
    } else if d == 5 {
        proof {
            reveal_strlit("5");
        }
        "5"
    } else if d == 6 {
        proof {
            reveal_strlit("6");
        }
        "6"
    } else if d == 7 {
        proof {
            reveal_strlit("7");
        }
        "7"
    } else if d == 8 {
        proof {
            reveal_strlit("8");
        }
        "8"
    } else {
        proof {
            reveal_strlit("9");
        }
        "9"
    }
}

/// Appends the decimal digits of `n`.
fn append_digits(out: &mut String, n: u64)
    ensures
        final(out)@ == old(out)@ + digits_of(n as nat),
    decreases n,
{
    if n >= 10 {
        append_digits(out, n / 10);
    }
    out.append(digit_str(n % 10));
    proof {
        if n >= 10 {
            assert(digits_of(n as nat) == digits_of((n / 10) as nat).push(digit_of((n % 10) as nat)));
        }
    }
    assert(out@ =~= old(out)@ + digits_of(n as nat));
}

/// `pid` in decimal, with a minus sign when negative.
pub fn pid_text(pid: i32) -> (r: String)
    ensures
        r@ == decimal_text(pid as int),
{
    if pid < 0 {
        let mut out = String::from_str("-");
        proof {
            reveal_strlit("-");
        }
        append_digits(&mut out, (0 - pid as i64) as u64);
        assert(out@ =~= decimal_text(pid as int));
        out
    } else {
        let mut out = String::from_str("");
        proof {
            reveal_strlit("");
        }
        append_digits(&mut out, pid as u64);
        assert(out@ =~= decimal_text(pid as int));
        out
    }
}

/// The name of the control socket of the terminal process `pid`.
pub open spec fn socket_name(pid: i32) -> Seq<char> {
    "kitty-"@ + decimal_text(pid as int) + ".sock"@
}

pub fn socket_file_name(pid: i32) -> (r: String)
    ensures
        r@ == socket_name(pid),
{
    let mut out = String::from_str("kitty-");
    let digits = pid_text(pid);
    out.append(digits.as_str());
    out.append(".sock");
    out
}

/// The directories where a control socket may be: the runtime directory
/// when one is set, else the usual one of the first user, then `/tmp`.
pub fn socket_dirs(runtime_dir: Option<&str>) -> (r: Vec<String>)
    ensures
        runtime_dir matches Some(d) ==> r@.len() == 1 && r@[0]@ == d@,
        runtime_dir is None ==> r@.len() == 2 && r@[0]@ == "/run/user/1000"@ && r@[1]@ == "/tmp"@,
{
    let mut out: Vec<String> = Vec::new();
    match runtime_dir {
        Some(d) => {
            out.push(d.to_owned());
        },
        None => {
            out.push(String::from_str("/run/user/1000"));
            out.push(String::from_str("/tmp"));
        },
    }
    out
}

/// The candidate to use: the first that exists, else the first.
pub fn first_existing(exists: &Vec<bool>) -> (r: usize)
    ensures
        exists@.len() == 0 ==> r == 0,
        exists@.len() > 0 ==> r < exists@.len(),
        r < exists@.len() && exists@[r as int] ==> forall|j: int| 0 <= j < r ==> !exists@[j],
        (forall|j: int| 0 <= j < exists@.len() ==> !exists@[j]) ==> r == 0,
        (exists|j: int| 0 <= j < exists@.len() && exists@[j]) ==> exists@[r as int],
{
    let mut i: usize = 0;
    while i < exists.len()
        invariant
            i <= exists@.len(),
            forall|j: int| 0 <= j < i ==> !exists@[j],
        decreases exists@.len() - i,
    {
        if exists[i] {
            return i;
        }
        i = i + 1;
    }
    0
}

} // verus!
