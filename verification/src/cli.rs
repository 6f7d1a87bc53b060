//! Command-line argument handling: splitting raw arguments into options and
//! operands, choosing the subcommand, and reading log-level names.
use vstd::prelude::*;

use vstd::string::{StrSliceExecFns, StringSliceAdditionalSpecFns};

verus! {

/// The logger verbosity levels a project can be created or run with.
#[derive(Debug, Clone, Copy, PartialEq, Eq, Structural)]
pub enum LogLevel {
    Error,
    Warn,
    Info,
    Debug,
    Trace,
}

/// An ASCII upper-case letter mapped to lower case; any other byte kept.
pub open spec fn ascii_lower(b: u8) -> u8 {
    if 65 <= b && b <= 90 {
        (b + 32) as u8
    } else {
        b
    }
}

pub open spec fn lower_bytes(s: Seq<u8>) -> Seq<u8> {
    s.map(|_i: int, b: u8| ascii_lower(b))
}

/// Reading a level name, ASCII-case-insensitively: exactly the five level
/// names are accepted.
pub open spec fn spec_parse_level(s: Seq<u8>) -> Result<LogLevel, ()> {
    let l = lower_bytes(s);
    if l == ("error").spec_bytes() {
        Ok(LogLevel::Error)
    } else if l == ("warn").spec_bytes() {
        Ok(LogLevel::Warn)
    } else if l == ("info").spec_bytes() {
        Ok(LogLevel::Info)
    } else if l == ("debug").spec_bytes() {
        Ok(LogLevel::Debug)
    } else if l == ("trace").spec_bytes() {
        Ok(LogLevel::Trace)
    } else {
        Err(())
    }
}

fn lower_vec(s: &Vec<u8>) -> (r: Vec<u8>)
    ensures
        r@ == lower_bytes(s@),
{
    let mut out: Vec<u8> = Vec::new();
    let mut i: usize = 0;
    while i < s.len()
        invariant
            i <= s@.len(),
            out@.len() == i,
            forall|j: int| 0 <= j < i ==> out@[j] == lower_bytes(s@)[j],
        decreases s@.len() - i,
    {
        let b = s[i];
        if 65 <= b && b <= 90 {
            out.push(b + 32);
        } else {
            out.push(b);
        }
        i += 1;
    }
    proof {
        assert(out@ =~= lower_bytes(s@));
    }
    out
}

/// Reads a log-level name, ASCII-case-insensitively.
pub fn parse_log_level(s: &str) -> (r: Result<LogLevel, ()>)
    ensures
        r == spec_parse_level(s.spec_bytes()),
{
    let low = lower_vec(&s.as_bytes_vec());
    if crate::bytes::bytes_eq(&low, &("error").as_bytes_vec()) {
        Ok(LogLevel::Error)
    } else if crate::bytes::bytes_eq(&low, &("warn").as_bytes_vec()) {
        Ok(LogLevel::Warn)
    } else if crate::bytes::bytes_eq(&low, &("info").as_bytes_vec()) {
        Ok(LogLevel::Info)
    } else if crate::bytes::bytes_eq(&low, &("debug").as_bytes_vec()) {
        Ok(LogLevel::Debug)
    } else if crate::bytes::bytes_eq(&low, &("trace").as_bytes_vec()) {
        Ok(LogLevel::Trace)
    } else {
        Err(())
    }
}

impl core::str::FromStr for LogLevel {
    type Err = ();

    fn from_str(s: &str) -> Result<Self, Self::Err> {
        parse_log_level(s)
    }
}

/// The argument holds `-` at position `k`.
pub open spec fn dash_at(a: Seq<char>, k: int) -> bool {
    0 <= k < a.len() && a[k] == '-'
}

/// The argument holds `--` starting at position `k`.
pub open spec fn dash_dash_at(a: Seq<char>, k: int) -> bool {
    0 <= k && k + 1 < a.len() && a[k] == '-' && a[k + 1] == '-'
}

pub open spec fn has_dash(a: Seq<char>) -> bool {
    exists|k: int| dash_at(a, k)
}

pub open spec fn has_dash_dash(a: Seq<char>) -> bool {
    exists|k: int| dash_dash_at(a, k)
}

/// An argument whose dashes, if any, stand at the front: the only arguments
/// the splitter accepts without aborting.
pub open spec fn dashes_lead(a: Seq<char>) -> bool {
    &&& has_dash(a) ==> (a.len() > 0 && a[0] == '-')
    &&& has_dash_dash(a) ==> (a.len() > 1 && a[0] == '-' && a[1] == '-')
}

/// The split of the arguments from index `i` on: option arguments (a `--` or
/// `-` prefix stripped) and the other arguments, each in order.
pub open spec fn spec_split_args(args: Seq<Seq<char>>, i: int) -> (Seq<Seq<char>>, Seq<Seq<char>>)
    decreases args.len() - i when 0 <= i <= args.len()
{
    if i >= args.len() {
        (Seq::empty(), Seq::empty())
    } else {
        let rest = spec_split_args(args, i + 1);
        let a = args[i];
        if has_dash_dash(a) {
            (seq![a.skip(2)] + rest.0, rest.1)
        } else if has_dash(a) {
            (seq![a.skip(1)] + rest.0, rest.1)
        } else {
            (rest.0, seq![a] + rest.1)
        }
    }
}

/// A parsed invocation: the subcommand word, the option arguments with their
/// dashes stripped, and the remaining operands.
#[derive(Debug)]
pub struct Info {
    sub_command: String,
    options: Vec<String>,
    others: Vec<String>,
}

/// The chosen subcommand.
#[derive(Debug)]
pub enum SubCommand {
    Null,
    SubComNew(SubComNew),
}

/// The project-creation subcommand: the new project's name and the chosen
/// log level.
#[derive(Debug)]
pub struct SubComNew {
    pub name: String,
    pub option: Option<LogLevel>,
}

fn find_dash(s: &str) -> (r: bool)
    ensures
        r == has_dash(s@),
{
    let n = s.unicode_len();
    let mut i: usize = 0;
    while i < n
        invariant
            i <= n,
            n == s@.len(),
            forall|k: int| 0 <= k < i ==> s@[k] != '-',
        decreases n - i,
    {
        if s.get_char(i) == '-' {
            proof {
                assert(dash_at(s@, i as int));
            }
            return true;
        }
        i += 1;
    }
    proof {
        assert forall|k: int| !dash_at(s@, k) by {
            if 0 <= k < s@.len() {
                assert(s@[k] != '-');
            }
        }
    }
    false
}

fn find_dash_dash(s: &str) -> (r: bool)
    ensures
        r == has_dash_dash(s@),
{
    let n = s.unicode_len();
    if n < 2 {
        proof {
            assert forall|k: int| !dash_dash_at(s@, k) by {}
        }
        return false;
    }
    let mut i: usize = 0;
    while i + 1 < n
        invariant
            i + 1 <= n,
            n == s@.len(),
            forall|k: int| 0 <= k < i ==> !((#[trigger] s@[k]) == '-' && s@[k + 1] == '-'),
        decreases n - i,
    {
        if s.get_char(i) == '-' && s.get_char(i + 1) == '-' {
            proof {
                assert(dash_dash_at(s@, i as int));
            }
            return true;
        }
        i += 1;
    }
    proof {
        assert forall|k: int| !dash_dash_at(s@, k) by {
            if 0 <= k && k + 1 < s@.len() {
                assert(!(s@[k] == '-' && s@[k + 1] == '-'));
            }
        }
    }
    false
}

impl Info {
    pub closed spec fn sub_command_view(&self) -> Seq<char> {
        self.sub_command@
    }

    pub closed spec fn options_view(&self) -> Seq<Seq<char>> {
        self.options.deep_view()
    }

    pub closed spec fn others_view(&self) -> Seq<Seq<char>> {
        self.others.deep_view()
    }

    /// Splits the raw arguments: the first is the subcommand word; of the
    /// rest, an argument carrying a dash becomes an option with its `--` or
    /// `-` prefix stripped, any other an operand. Arguments with a dash
    /// anywhere but at the front are not accepted.
    pub fn from_args(args: Vec<String>) -> (r: Info)
        requires
            args@.len() >= 1,
            forall|i: int| 1 <= i < args@.len() ==> dashes_lead(#[trigger] args@[i]@),
        ensures
            r.sub_command_view() == args@[0]@,
            (r.options_view(), r.others_view()) == spec_split_args(args.deep_view(), 1),
    {
        let ghost av = args.deep_view();
        proof {
            assert(av.len() == args@.len());
            assert(forall|i: int| 0 <= i < av.len() ==> av[i] == #[trigger] args@[i]@);
        }
        let mut options: Vec<String> = Vec::new();
        let mut others: Vec<String> = Vec::new();
        let mut i: usize = 1;
        while i < args.len()
            invariant
                1 <= i <= args@.len(),
                av == args.deep_view(),
                av.len() == args@.len(),
                forall|k: int| 0 <= k < av.len() ==> av[k] == #[trigger] args@[k]@,
                forall|k: int| 1 <= k < av.len() ==> dashes_lead(#[trigger] args@[k]@),
                ({
                    let done = (options.deep_view(), others.deep_view());
                    let rest = spec_split_args(av, i as int);
                    spec_split_args(av, 1) == (done.0 + rest.0, done.1 + rest.1)
                }),
            decreases args@.len() - i,
        {
            let a = &args[i];
            let ghost os0 = options.deep_view();
            let ghost ot0 = others.deep_view();
            if find_dash_dash(a.as_str()) {
                let n = a.as_str().unicode_len();
                let stripped = a.as_str().substring_char(2, n).to_owned();
                proof {
                    assert(stripped@ =~= av[i as int].skip(2));
                }
                options.push(stripped);
                proof {
                    assert(options.deep_view() =~~= os0.push(av[i as int].skip(2)));
                }
            } else if find_dash(a.as_str()) {
                let n = a.as_str().unicode_len();
                let stripped = a.as_str().substring_char(1, n).to_owned();
                proof {
                    assert(stripped@ =~= av[i as int].skip(1));
                }
                options.push(stripped);
                proof {
                    assert(options.deep_view() =~~= os0.push(av[i as int].skip(1)));
                }
            } else {
                others.push(a.clone());
                proof {
                    assert(others.deep_view() =~~= ot0.push(av[i as int]));
                }
            }
            proof {
                let rest = spec_split_args(av, i + 1);
                let a0 = av[i as int];
                if has_dash_dash(a0) {
                    assert(os0.push(a0.skip(2)) + rest.0 =~= os0 + (seq![a0.skip(2)] + rest.0));
                } else if has_dash(a0) {
                    assert(os0.push(a0.skip(1)) + rest.0 =~= os0 + (seq![a0.skip(1)] + rest.0));
                } else {
                    assert(ot0.push(a0) + rest.1 =~= ot0 + (seq![a0] + rest.1));
                }
            }
            i += 1;
        }
        proof {
            let done = (options.deep_view(), others.deep_view());
            assert(done.0 + spec_split_args(av, av.len() as int).0 =~= done.0);
            assert(done.1 + spec_split_args(av, av.len() as int).1 =~= done.1);
        }
        let mut args = args;
        let sub_command = args.remove(0);
        Info { sub_command, options, others }
    }

    /// Chooses the subcommand: `new` builds the project-creation command
    /// from the last operand as name and the last option as log level,
    /// defaulting to `Info` when no option is given or the name is unknown;
    /// any other word yields no subcommand. The `new` word requires an
    /// operand to serve as the project name.
    pub fn into_subcommand(self) -> (r: SubCommand)
        requires
            self.sub_command_view() == ("new")@ ==> self.others_view().len() >= 1,
        ensures
            self.sub_command_view() != ("new")@ ==> r is Null,
            self.sub_command_view() == ("new")@ ==> (r matches SubCommand::SubComNew(n) && n.name@
                == self.others_view().last() && n.option == Some(
                if self.options_view().len() == 0 {
                    LogLevel::Info
                } else {
                    match spec_parse_level(
                        vstd::utf8::encode_utf8(self.options_view().last()),
                    ) {
                        Ok(l) => l,
                        Err(_) => LogLevel::Info,
                    }
                },
            )),
    {
        let mut me = self;
        let nw = String::from_str("new");
        if me.sub_command.eq(&nw) {
            let name = match me.others.pop() {
                Some(n) => n,
                None => {
                    proof {
                        assert(false);
                    }
                    String::new()
                },
            };
            let level = if me.options.is_empty() {
                Some(LogLevel::Info)
            } else {
                let last = match me.options.pop() {
                    Some(o) => o,
                    None => String::new(),
                };
                match parse_log_level(last.as_str()) {
                    Ok(l) => Some(l),
                    Err(_) => Some(LogLevel::Info),
                }
            };
            SubCommand::SubComNew(SubComNew { name, option: level })
        } else {
            SubCommand::Null
        }
    }
}

/// The project-build subcommand: its raw options, as handed to the runner.
#[derive(Debug)]
pub struct SubComRun {
    pub options: Vec<String>,
}


/// `needle` occurs in `hay` starting at char position `i`.
pub open spec fn occurs_at(hay: Seq<char>, needle: Seq<char>, i: int) -> bool {
    0 <= i && i + needle.len() <= hay.len() && hay.subrange(i, i + needle.len() as int) == needle
}

pub open spec fn str_has(hay: Seq<char>, needle: Seq<char>) -> bool {
    exists|i: int| occurs_at(hay, needle, i)
}

/// `needle` occurs somewhere in `hay`.
pub fn str_contains(hay: &str, needle: &str) -> (r: bool)
    ensures
        r == str_has(hay@, needle@),
{
    let hn = hay.unicode_len();
    let nn = needle.unicode_len();
    if nn == 0 {
        proof {
            assert(hay@.subrange(0, 0) =~= needle@);
            assert(occurs_at(hay@, needle@, 0));
        }
        return true;
    }
    if nn > hn {
        proof {
            assert forall|i: int| !occurs_at(hay@, needle@, i) by {}
        }
        return false;
    }
    let mut i: usize = 0;
    while i <= hn - nn
        invariant
            1 <= nn <= hn,
            hn == hay@.len(),
            nn == needle@.len(),
            i <= hn - nn + 1,
            forall|k: int| 0 <= k < i ==> !occurs_at(hay@, needle@, k),
        decreases hn - nn + 1 - i,
    {
        let mut j: usize = 0;
        let mut all = true;
        while j < nn
            invariant
                nn <= hn,
                hn == hay@.len(),
                nn == needle@.len(),
                i + nn <= hn,
                j <= nn,
                all ==> forall|x: int| 0 <= x < j ==> hay@[i + x] == needle@[x],
                !all ==> !occurs_at(hay@, needle@, i as int),
            decreases nn - j,
        {
            if hay.get_char(i + j) != needle.get_char(j) {
                proof {
                    assert(hay@.subrange(i as int, i + needle@.len() as int)[j as int]
                        != needle@[j as int]);
                }
                all = false;
                j = nn;
            } else {
                j += 1;
            }
        }
        if all {
            proof {
                assert(hay@.subrange(i as int, i + needle@.len() as int) =~= needle@);
                assert(occurs_at(hay@, needle@, i as int));
            }
            return true;
        }
        i += 1;
    }
    proof {
        assert forall|k: int| !occurs_at(hay@, needle@, k) by {
            if 0 <= k && k + needle@.len() <= hay@.len() {
                assert(!occurs_at(hay@, needle@, k));
            }
        }
    }
    false
}

/// No file path under the binary directory mentions the package name: the
/// entry point has not been generated yet and a generation run is due.
pub fn needs_generation(paths: &Vec<String>, pkg_name: &str) -> (r: bool)
    ensures
        r == (forall|i: int|
            0 <= i < paths.deep_view().len() ==> !str_has(
                #[trigger] paths.deep_view()[i],
                pkg_name@,
            )),
{
    let ghost pv = paths.deep_view();
    let mut i: usize = 0;
    while i < paths.len()
        invariant
            i <= paths@.len(),
            pv == paths.deep_view(),
            pv.len() == paths@.len(),
            forall|k: int| 0 <= k < i ==> !str_has(#[trigger] pv[k], pkg_name@),
        decreases paths@.len() - i,
    {
        proof {
            assert(pv[i as int] == paths@[i as int]@);
        }
        if str_contains(paths[i].as_str(), pkg_name) {
            return false;
        }
        i += 1;
    }
    true
}

/// The option is one of the log-level flags the runner consumes itself.
pub open spec fn spec_is_log_option(o: Seq<char>) -> bool {
    ||| o == ("--off")@
    ||| o == ("--error")@
    ||| o == ("--warn")@
    ||| o == ("--info")@
    ||| o == ("--debug")@
    ||| o == ("--trace")@
}

fn is_log_option(o: &String) -> (r: bool)
    ensures
        r == spec_is_log_option(o@),
{
    if o.eq(&String::from_str("--off")) {
        return true;
    }
    if o.eq(&String::from_str("--error")) {
        return true;
    }
    if o.eq(&String::from_str("--warn")) {
        return true;
    }
    if o.eq(&String::from_str("--info")) {
        return true;
    }
    if o.eq(&String::from_str("--debug")) {
        return true;
    }
    if o.eq(&String::from_str("--trace")) {
        return true;
    }
    false
}

/// The runner's options split from index `i` on: the log-level flags it
/// applies itself and the options handed through to the build command, each
/// in order.
pub open spec fn spec_split_run_options(opts: Seq<Seq<char>>, i: int) -> (
    Seq<Seq<char>>,
    Seq<Seq<char>>,
)
    decreases opts.len() - i when 0 <= i <= opts.len()
{
    if i >= opts.len() {
        (Seq::empty(), Seq::empty())
    } else {
        let rest = spec_split_run_options(opts, i + 1);
        if spec_is_log_option(opts[i]) {
            (seq![opts[i]] + rest.0, rest.1)
        } else {
            (rest.0, seq![opts[i]] + rest.1)
        }
    }
}

impl SubComRun {
    /// Splits the raw options: the log-level flags the runner applies
    /// itself, and the options passed on to the build command.
    pub fn split_options(&self) -> (r: (Vec<String>, Vec<String>))
        ensures
            (r.0.deep_view(), r.1.deep_view()) == spec_split_run_options(
                self.options.deep_view(),
                0,
            ),
    {
        let ghost ov = self.options.deep_view();
        let mut levels: Vec<String> = Vec::new();
        let mut passed: Vec<String> = Vec::new();
        let mut i: usize = 0;
        while i < self.options.len()
            invariant
                i <= self.options@.len(),
                ov == self.options.deep_view(),
                ov.len() == self.options@.len(),
                ({
                    let rest = spec_split_run_options(ov, i as int);
                    spec_split_run_options(ov, 0) == (
                        levels.deep_view() + rest.0,
                        passed.deep_view() + rest.1,
                    )
                }),
            decreases self.options@.len() - i,
        {
            proof {
                assert(ov[i as int] == self.options@[i as int]@);
            }
            let ghost lv0 = levels.deep_view();
            let ghost pa0 = passed.deep_view();
            let o = &self.options[i];
            if is_log_option(o) {
                levels.push(o.clone());
                proof {
                    assert(levels.deep_view() =~~= lv0.push(ov[i as int]));
                }
            } else {
                passed.push(o.clone());
                proof {
                    assert(passed.deep_view() =~~= pa0.push(ov[i as int]));
                }
            }
            proof {
                let rest = spec_split_run_options(ov, i + 1);
                if spec_is_log_option(ov[i as int]) {
                    assert(lv0.push(ov[i as int]) + rest.0 =~= lv0 + (seq![ov[i as int]]
                        + rest.0));
                } else {
                    assert(pa0.push(ov[i as int]) + rest.1 =~= pa0 + (seq![ov[i as int]]
                        + rest.1));
                }
            }
            i += 1;
        }
        proof {
            let rest = spec_split_run_options(ov, ov.len() as int);
            assert(levels.deep_view() + rest.0 =~= levels.deep_view());
            assert(passed.deep_view() + rest.1 =~= passed.deep_view());
        }
        (levels, passed)
    }
}

} // verus!
