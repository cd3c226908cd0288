//! Program arguments.
use vstd::prelude::*;
use crate::text::{
    after_prefix, bool_literal, is_prefix, parse_bool, parse_u16, parsed_u16, str_equals,
    string_views,
};

verus! {

/// The arguments that the program was started with.
pub struct ProgramArgs {
    /// the path of the executable
    pub exe: String,
    /// the arguments after it
    pub args: Vec<String>,
    pub ip: Option<String>,
    pub port: Option<u16>,
    pub host_auto_accept: Option<bool>,
}

impl ProgramArgs {
    /// The boolean that `flag` spells.
    pub fn str_to_bool(flag: &str) -> (r: bool)
        requires
            bool_literal(flag@) is Some,
        ensures
            bool_literal(flag@) == Some(r),
    {
        match parse_bool(flag) {
            Some(b) => b,
            None => false,
        }
    }
}

/// What the options among the arguments set.
pub struct ArgsFound {
    pub ip: Option<Seq<char>>,
    pub port: Option<u16>,
    pub host_auto_accept: Option<bool>,
}

pub open spec fn with_port(f: ArgsFound, port: u16) -> ArgsFound {
    ArgsFound { ip: f.ip, port: Some(port), host_auto_accept: f.host_auto_accept }
}

pub open spec fn with_ip(f: ArgsFound, ip: Seq<char>) -> ArgsFound {
    ArgsFound { ip: Some(ip), port: f.port, host_auto_accept: f.host_auto_accept }
}

pub open spec fn with_auto_accept(f: ArgsFound) -> ArgsFound {
    ArgsFound { ip: f.ip, port: f.port, host_auto_accept: Some(true) }
}

/// The options read from `args[i ..]` on top of `found`, a later option
/// replacing an earlier one; `None` where a port does not parse. `-p` and
/// `-ip` take the next argument as their value, unless they are last.
pub open spec fn scan_args(args: Seq<Seq<char>>, i: int, found: ArgsFound) -> Option<ArgsFound>
    decreases args.len() - i,
{
    if i < 0 || i >= args.len() {
        Some(found)
    } else {
        let a = args[i];
        if a == "-p"@ && i + 1 < args.len() {
            match parsed_u16(args[i + 1]) {
                Some(p) => scan_args(args, i + 2, with_port(found, p)),
                None => None,
            }
        } else if is_prefix("--port="@, a) {
            match parsed_u16(a.skip("--port="@.len() as int)) {
                Some(p) => scan_args(args, i + 1, with_port(found, p)),
                None => None,
            }
        } else if is_prefix("-ip"@, a) && i + 1 < args.len() {
            scan_args(args, i + 2, with_ip(found, args[i + 1]))
        } else if is_prefix("--ip="@, a) {
            scan_args(args, i + 1, with_ip(found, a.skip("--ip="@.len() as int)))
        } else if a == "-aa"@ || a == "--auto-accept"@ {
            scan_args(args, i + 1, with_auto_accept(found))
        } else {
            scan_args(args, i + 1, found)
        }
    }
}

pub open spec fn nothing_found() -> ArgsFound {
    ArgsFound { ip: None, port: None, host_auto_accept: None }
}

pub open spec fn opt_view(o: Option<String>) -> Option<Seq<char>> {
    match o {
        Some(s) => Some(s@),
        None => None,
    }
}

/// `args` holds the program and its options all parse.
pub open spec fn valid_args(args: Seq<String>) -> bool {
    args.len() >= 1 && scan_args(string_views(args.skip(1)), 0, nothing_found()) is Some
}

impl ProgramArgs {
    /// Splits `[program, arguments ..]` and reads the options among the
    /// arguments.
    pub fn parse(args: Vec<String>) -> (r: Self)
        requires
            valid_args(args@),
        ensures
            r.exe@ == args@[0]@,
            string_views(r.args@) == string_views(args@.skip(1)),
            scan_args(string_views(args@.skip(1)), 0, nothing_found()) == Some(
                ArgsFound { ip: opt_view(r.ip), port: r.port, host_auto_accept: r.host_auto_accept },
            ),
    {
        match Self::try_parse(args) {
            Some(r) => r,
            None => Self { exe: String::new(), args: Vec::new(), ip: None, port: None, host_auto_accept: None },
        }
    }

    /// As [`Self::parse`], or `None` where there is no program or a port does
    /// not parse.
    pub fn try_parse(args: Vec<String>) -> (r: Option<Self>)
        ensures
            r is Some <==> valid_args(args@),
            r matches Some(p) ==> {
                &&& p.exe@ == args@[0]@
                &&& string_views(p.args@) == string_views(args@.skip(1))
                &&& scan_args(string_views(args@.skip(1)), 0, nothing_found()) == Some(
                    ArgsFound { ip: opt_view(p.ip), port: p.port, host_auto_accept: p.host_auto_accept },
                )
            },
    {
        if args.len() == 0 {
            return None;
        }
        let exe = args[0].clone();
        let mut rest: Vec<String> = Vec::new();
        let mut k: usize = 1;
        while k < args.len()
            invariant
                1 <= k <= args@.len(),
                string_views(rest@) =~= string_views(args@.subrange(1, k as int)),
            decreases args@.len() - k,
        {
            let ghost before = rest@;
            let item = args[k].clone();
            assert(item@ == args@[k as int]@);
            rest.push(item);
            assert(rest@ =~= before.push(item));
            assert(string_views(rest@) =~= string_views(before).push(item@));
            assert(args@.subrange(1, k + 1) =~= args@.subrange(1, k as int).push(args@[k as int]));
            assert(string_views(args@.subrange(1, k + 1)) =~= string_views(
                args@.subrange(1, k as int),
            ).push(args@[k as int]@));
            k = k + 1;
        }
        assert(args@.subrange(1, k as int) =~= args@.skip(1));
        let ghost views = string_views(rest@);
        let length = rest.len();
        let mut port_arg: Option<u16> = None;
        let mut ip_arg: Option<String> = None;
        let mut host_auto_accept: Option<bool> = None;
        let mut i: usize = 0;
        while i < length
            invariant
                length == rest@.len() == views.len(),
                views == string_views(rest@),
                views == string_views(args@.skip(1)),
                args@.len() >= 1,
                i <= length,
                scan_args(views, 0, nothing_found()) == scan_args(
                    views,
                    i as int,
                    ArgsFound { ip: opt_view(ip_arg), port: port_arg, host_auto_accept },
                ),
            decreases length - i,
        {
            let argument = rest[i].as_str();
            assert(argument@ == views[i as int]);
            if str_equals(argument, "-p") && i + 1 < length {
                assert(rest[i + 1]@ == views[i + 1]);
                match parse_u16(rest[i + 1].as_str()) {
                    Some(port) => port_arg = Some(port),
                    None => {
                        return None;
                    },
                }
                i = i + 1;
            } else if let Some(value) = after_prefix(argument, "--port=") {
                match parse_u16(value) {
                    Some(port) => port_arg = Some(port),
                    None => {
                        return None;
                    },
                }
            } else if after_prefix(argument, "-ip").is_some() && i + 1 < length {
                assert(rest[i + 1]@ == views[i + 1]);
                ip_arg = Some(rest[i + 1].clone());
                i = i + 1;
            } else if let Some(value) = after_prefix(argument, "--ip=") {
                ip_arg = Some(value.to_owned());
            } else if str_equals(argument, "-aa") || str_equals(argument, "--auto-accept") {
                host_auto_accept = Some(true);
            }
            i = i + 1;
        }
        Some(Self { exe, args: rest, ip: ip_arg, port: port_arg, host_auto_accept })
    }
}

} // verus!
