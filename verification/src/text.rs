use vstd::prelude::*;
use vstd::string::StringExecFns;

verus! {

/// The decimal digit character for a value below ten.
pub open spec fn spec_digit_char(d: int) -> char {
    if d == 0 {
        '0'
    } else if d == 1 {
        '1'
    } else if d == 2 {
        '2'
    } else if d == 3 {
        '3'
    } else if d == 4 {
        '4'
    } else if d == 5 {
        '5'
    } else if d == 6 {
        '6'
    } else if d == 7 {
        '7'
    } else if d == 8 {
        '8'
    } else {
        '9'
    }
}

/// The decimal digits of `n`, most significant first.
pub open spec fn spec_u64_digits(n: nat) -> Seq<char>
    decreases n,
{
    if n < 10 {
        seq![spec_digit_char(n as int)]
    } else {
        spec_u64_digits(n / 10).push(spec_digit_char((n % 10) as int))
    }
}

/// The message raised when the input holds fewer distinct colors than
/// the requested cluster count: it ends in that distinct-color count.
pub open spec fn spec_distinct_error_message(count: nat) -> Seq<char> {
    "Number of unique colors is less than k: "@ + spec_u64_digits(count)
}

/// The message raised when a run is requested with a cluster count of zero.
pub open spec fn spec_k_zero_message() -> Seq<char> {
    "k must be at least 1"@
}

/// The message raised when an engine does not carry the requested algorithm.
pub open spec fn spec_unsupported_message(name: Seq<char>) -> Seq<char> {
    "Algorithm not supported: "@ + name
}

/// The message raised when three-channel data is handed to the
/// accelerator-backed engine.
pub open spec fn spec_gpu_vec3_message() -> Seq<char> {
    "GPU not supported for 3 channel data. Convert to 4 channel data first."@
}

fn append_digit(s: &mut String, d: u64)
    requires
        d < 10,
    ensures
        final(s)@ == old(s)@ + seq![spec_digit_char(d as int)],
{
    if d == 0 {
        s.append("0");
        proof {
            reveal_strlit("0");
            assert(s@ =~= old(s)@ + seq![spec_digit_char(d as int)]);
        }
    } else if d == 1 {
        s.append("1");
        proof {
            reveal_strlit("1");
            assert(s@ =~= old(s)@ + seq![spec_digit_char(d as int)]);
        }
    } else if d == 2 {
        s.append("2");
        proof {
            reveal_strlit("2");
            assert(s@ =~= old(s)@ + seq![spec_digit_char(d as int)]);
        }
    } else if d == 3 {
        s.append("3");
        proof {
            reveal_strlit("3");
            assert(s@ =~= old(s)@ + seq![spec_digit_char(d as int)]);
        }
    } else if d == 4 {
        s.append("4");
        proof {
            reveal_strlit("4");
            assert(s@ =~= old(s)@ + seq![spec_digit_char(d as int)]);
        }
    } else if d == 5 {
        s.append("5");
        proof {
            reveal_strlit("5");
            assert(s@ =~= old(s)@ + seq![spec_digit_char(d as int)]);
        }
    } else if d == 6 {
        s.append("6");
        proof {
            reveal_strlit("6");
            assert(s@ =~= old(s)@ + seq![spec_digit_char(d as int)]);
        }
    } else if d == 7 {
        s.append("7");
        proof {
            reveal_strlit("7");
            assert(s@ =~= old(s)@ + seq![spec_digit_char(d as int)]);
        }
    } else if d == 8 {
        s.append("8");
        proof {
            reveal_strlit("8");
            assert(s@ =~= old(s)@ + seq![spec_digit_char(d as int)]);
        }
    } else {
        s.append("9");
        proof {
            reveal_strlit("9");
            assert(s@ =~= old(s)@ + seq![spec_digit_char(d as int)]);
        }
    }
}

/// Appends the decimal digits of `n` to `s`.
pub fn append_u64(s: &mut String, n: u64)
    ensures
        final(s)@ == old(s)@ + spec_u64_digits(n as nat),
    decreases n,
{
    if n >= 10 {
        append_u64(s, n / 10);
        append_digit(s, n % 10);
        proof {
            assert(s@ =~= old(s)@ + spec_u64_digits(n as nat));
        }
    } else {
        append_digit(s, n);
    }
}

/// The decimal rendering of `n`.
pub fn u64_to_string(n: u64) -> (s: String)
    ensures
        s@ == spec_u64_digits(n as nat),
{
    let mut s = String::new();
    append_u64(&mut s, n);
    proof {
        assert(s@ =~= spec_u64_digits(n as nat));
    }
    s
}

/// Builds the too-few-distinct-colors message, naming the actual count.
pub fn distinct_error_message(count: u64) -> (s: String)
    ensures
        s@ == spec_distinct_error_message(count as nat),
{
    let mut s = ("Number of unique colors is less than k: ").to_owned();
    append_u64(&mut s, count);
    s
}

/// Builds the zero-cluster-count message.
pub fn k_zero_message() -> (s: String)
    ensures
        s@ == spec_k_zero_message(),
{
    ("k must be at least 1").to_owned()
}

/// Builds the unsupported-algorithm message from the algorithm's name.
pub fn unsupported_algorithm_message(name: &str) -> (s: String)
    ensures
        s@ == spec_unsupported_message(name@),
{
    let s = ("Algorithm not supported: ").to_owned();
    s.concat(name)
}

/// Builds the three-channel-data-on-accelerator message.
pub fn gpu_vec3_message() -> (s: String)
    ensures
        s@ == spec_gpu_vec3_message(),
{
    ("GPU not supported for 3 channel data. Convert to 4 channel data first.").to_owned()
}

} // verus!
