//! What the server is started with: the transport, the port, and the
//! origins whose responses browsers may read.

use vstd::prelude::*;
use crate::text::{chars_of, same_str, slice_of, string_of, strings, trim, trimmed};

verus! {

/// The options of a server.
pub struct ServerOptions {
    /// Whether the network transport is used in place of the local pipe.
    pub use_sse: bool,
    pub port: u16,
    pub allowed_origins: Vec<String>,
}

/// The port that the network transport listens on where none is given.
pub fn default_port() -> (port: u16)
    ensures
        port == 3199,
{
    3199
}

/// Whether `c` is a decimal digit.
pub open spec fn is_digit(c: char) -> bool {
    0x30 <= c as u32 <= 0x39
}

/// Whether every character of `s` from index `from` on is a decimal digit.
pub open spec fn all_digits(s: Seq<char>, from: int) -> bool {
    forall|i: int| from <= i < s.len() ==> is_digit(#[trigger] s[i])
}

/// The number that the digits `s[from..end]` write.
pub open spec fn digits_value(s: Seq<char>, from: int, end: int) -> int
    decreases end - from,
{
    if end <= from {
        0
    } else {
        digits_value(s, from, end - 1) * 10 + (s[end - 1] as u32 - 0x30)
    }
}

/// The port that `s` writes: decimal digits, at least one, behind at most
/// one `+`, that write a number of at most 65535.
pub open spec fn parse_port(s: Seq<char>) -> Option<u16> {
    let from: int = if s.len() > 0 && s[0] == '+' {
        1
    } else {
        0
    };
    if from >= s.len() || !all_digits(s, from) || digits_value(s, from, s.len() as int) > 65535 {
        None
    } else {
        Some(digits_value(s, from, s.len() as int) as u16)
    }
}

proof fn lemma_digits_value_grows(s: Seq<char>, from: int, mid: int, end: int)
    requires
        0 <= from <= mid <= end <= s.len(),
        all_digits(s, from),
    ensures
        0 <= digits_value(s, from, mid) <= digits_value(s, from, end),
    decreases end - mid,
{
    if mid < end {
        lemma_digits_value_grows(s, from, mid, end - 1);
        assert(is_digit(s[end - 1]));
    } else {
        lemma_digits_value_nonnegative(s, from, mid);
    }
}

proof fn lemma_digits_value_nonnegative(s: Seq<char>, from: int, end: int)
    requires
        0 <= from <= end <= s.len(),
        all_digits(s, from),
    ensures
        0 <= digits_value(s, from, end),
    decreases end - from,
{
    if from < end {
        lemma_digits_value_nonnegative(s, from, end - 1);
        assert(is_digit(s[end - 1]));
    }
}

/// Reads a port.
pub fn port_of(text: &str) -> (r: Option<u16>)
    ensures
        r == parse_port(text@),
{
    let s = chars_of(text);
    let from: usize = if s.len() > 0 && s[0] == '+' {
        1
    } else {
        0
    };
    if from >= s.len() {
        return None;
    }
    let mut value: u32 = 0;
    let mut i: usize = from;
    while i < s.len()
        invariant
            from <= i <= s.len(),
            s@ == text@,
            from == (if s@.len() > 0 && s@[0] == '+' {
                1int
            } else {
                0int
            }),
            forall|j: int| from <= j < i ==> is_digit(#[trigger] s@[j]),
            value == digits_value(s@, from as int, i as int),
            value <= 65535,
        decreases s.len() - i,
    {
        let c: char = s[i];
        let code: u32 = c as u32;
        if code < 0x30 || code > 0x39 {
            assert(!is_digit(s@[i as int]));
            return None;
        }
        let next: u32 = value * 10 + (code - 0x30);
        if next > 65535 {
            proof {
                if all_digits(s@, from as int) {
                    lemma_digits_value_grows(s@, from as int, i + 1, s.len() as int);
                }
            }
            return None;
        }
        value = next;
        i += 1;
    }
    assert(all_digits(s@, from as int));
    Some(value as u16)
}

/// The index of the first comma of `s` at or after `from`, or the length
/// of `s`.
pub open spec fn comma_end(s: Seq<char>, from: int) -> int
    decreases s.len() - from,
{
    if from < 0 || from >= s.len() {
        s.len() as int
    } else if s[from] == ',' {
        from
    } else {
        comma_end(s, from + 1)
    }
}

/// The parts of `s` from index `from` on that commas separate, each
/// without the white space at its ends.
pub open spec fn origins_from(s: Seq<char>, from: int) -> Seq<Seq<char>>
    decreases s.len() - from,
{
    if from < 0 || from > s.len() {
        Seq::empty()
    } else {
        let e = comma_end(s, from);
        if from <= e < s.len() {
            seq![trimmed(s.subrange(from, e))] + origins_from(s, e + 1)
        } else {
            seq![trimmed(s.subrange(from, s.len() as int))]
        }
    }
}

/// The origins that one argument lists, with commas between them.
pub fn origins_of(text: &str) -> (origins: Vec<String>)
    ensures
        strings(origins@) == origins_from(text@, 0),
{
    let s = chars_of(text);
    let mut origins: Vec<String> = Vec::new();
    let mut from: usize = 0;
    assert(strings(origins@) + origins_from(s@, 0) == origins_from(s@, 0));
    loop
        invariant
            from <= s.len(),
            s@ == text@,
            strings(origins@) + origins_from(s@, from as int) == origins_from(s@, 0),
        decreases s.len() - from,
    {
        let mut e: usize = from;
        while e < s.len() && s[e] != ','
            invariant
                from <= e <= s.len(),
                comma_end(s@, from as int) == comma_end(s@, e as int),
            decreases s.len() - e,
        {
            e += 1;
        }
        let ghost before = origins@;
        let part = string_of(&trim(&slice_of(&s, from, e)));
        origins.push(part);
        assert(strings(origins@) == strings(before) + seq![part@]);
        if e >= s.len() {
            return origins;
        }
        from = e + 1;
    }
}

/// The options once the arguments from index `i` on are read, starting
/// from the options given.
///
/// `--transport` takes the argument behind it and turns the network
/// transport on where that is `sse`; `--port` takes the argument behind it
/// as the port where it writes one; `--allowed-origins` takes the argument
/// behind it as the list of origins unless it is blank. Every other
/// argument is passed over.
pub open spec fn options_from(
    args: Seq<String>,
    i: int,
    use_sse: bool,
    port: u16,
    origins: Seq<Seq<char>>,
) -> (bool, u16, Seq<Seq<char>>)
    decreases args.len() + 2 - i,
{
    if i < 0 || i >= args.len() {
        (use_sse, port, origins)
    } else if args[i]@ == "--transport"@ {
        options_from(
            args,
            i + 2,
            use_sse || (i + 1 < args.len() && args[i + 1]@ == "sse"@),
            port,
            origins,
        )
    } else if args[i]@ == "--port"@ {
        options_from(
            args,
            i + 2,
            use_sse,
            if i + 1 < args.len() && parse_port(args[i + 1]@) is Some {
                parse_port(args[i + 1]@)->0
            } else {
                port
            },
            origins,
        )
    } else if args[i]@ == "--allowed-origins"@ {
        options_from(
            args,
            i + 2,
            use_sse,
            port,
            if i + 1 < args.len() && trimmed(args[i + 1]@).len() > 0 {
                origins_from(args[i + 1]@, 0)
            } else {
                origins
            },
        )
    } else {
        options_from(args, i + 1, use_sse, port, origins)
    }
}

/// Reads the arguments of the process, the first of which is its own
/// name, into the options of the server. What no argument sets is as
/// `defaults` has it.
pub fn parse_arguments(args: &Vec<String>, defaults: ServerOptions) -> (options: ServerOptions)
    ensures
        (options.use_sse, options.port, strings(options.allowed_origins@)) == options_from(
            args@,
            1,
            defaults.use_sse,
            defaults.port,
            strings(defaults.allowed_origins@),
        ),
{
    let mut options = defaults;
    let mut i: usize = 1;
    while i < args.len()
        invariant
            1 <= i,
            options_from(
                args@,
                i as int,
                options.use_sse,
                options.port,
                strings(options.allowed_origins@),
            ) == options_from(
                args@,
                1,
                defaults.use_sse,
                defaults.port,
                strings(defaults.allowed_origins@),
            ),
        decreases args.len() - i,
    {
        let arg = chars_of(args[i].as_str());
        let takes_next = same_str(&arg, "--transport") || same_str(&arg, "--port") || same_str(
            &arg,
            "--allowed-origins",
        );
        if same_str(&arg, "--transport") {
            if i + 1 < args.len() && same_str(&chars_of(args[i + 1].as_str()), "sse") {
                options.use_sse = true;
            }
        } else if same_str(&arg, "--port") {
            if i + 1 < args.len() {
                match port_of(args[i + 1].as_str()) {
                    Some(p) => {
                        options.port = p;
                    },
                    None => {},
                }
            }
        } else if same_str(&arg, "--allowed-origins") {
            if i + 1 < args.len() {
                let next = args[i + 1].as_str();
                if trim(&chars_of(next)).len() > 0 {
                    options.allowed_origins = origins_of(next);
                }
            }
        }
        if takes_next && i + 1 < args.len() {
            i += 2;
        } else if takes_next {
            assert(options_from(
                args@,
                i + 2,
                options.use_sse,
                options.port,
                strings(options.allowed_origins@),
            ) == (options.use_sse, options.port, strings(options.allowed_origins@)));
            assert(options_from(
                args@,
                i + 1,
                options.use_sse,
                options.port,
                strings(options.allowed_origins@),
            ) == (options.use_sse, options.port, strings(options.allowed_origins@)));
            i += 1;
        } else {
            i += 1;
        }
    }
    assert(options_from(
        args@,
        i as int,
        options.use_sse,
        options.port,
        strings(options.allowed_origins@),
    ) == (options.use_sse, options.port, strings(options.allowed_origins@)));
    options
}

} // verus!
