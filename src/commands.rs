//! Reading the command line: the command's name, its flags, and its
//! arguments.

use vstd::prelude::*;

verus! {

/// The flags of a command line.
#[derive(Debug)]
pub struct CommandFlags {
    pub strict: bool,
    pub entry: Option<String>,
}

/// A command line: the command's name, its flags, the arguments that are
/// not flags, and those arguments as one text.
#[derive(Debug)]
pub struct Command {
    pub name: String,
    pub flags: CommandFlags,
    pub args: Vec<String>,
    pub raw_args: String,
}

/// A flag that the command line does not know, without its first dash.
#[derive(Debug)]
pub struct UnknownFlag {
    pub flag: String,
}

/// Whether a character is whitespace: it has the Unicode `White_Space`
/// property, as `char::is_whitespace` has it.
pub open spec fn is_white(c: char) -> bool {
    let u = c as u32;
    (0x9 <= u <= 0xD) || u == 0x20 || u == 0x85 || u == 0xA0 || u == 0x1680 || (0x2000 <= u
        <= 0x200A) || u == 0x2028 || u == 0x2029 || u == 0x202F || u == 0x205F || u == 0x3000
}

/// The text without its leading whitespace.
pub open spec fn trim_start(s: Seq<char>) -> Seq<char>
    decreases s.len(),
{
    if s.len() > 0 && is_white(s[0]) {
        trim_start(s.drop_first())
    } else {
        s
    }
}

/// The text without its trailing whitespace.
pub open spec fn trim_end(s: Seq<char>) -> Seq<char>
    decreases s.len(),
{
    if s.len() > 0 && is_white(s.last()) {
        trim_end(s.drop_last())
    } else {
        s
    }
}

/// The text with leading and trailing whitespace removed.
pub open spec fn trimmed(s: Seq<char>) -> Seq<char> {
    trim_end(trim_start(s))
}

/// Whether a character is whitespace (see [`is_white`]).
pub fn is_white_char(c: char) -> (r: bool)
    ensures
        r == is_white(c),
{
    let u = c as u32;
    (0x9 <= u && u <= 0xD) || u == 0x20 || u == 0x85 || u == 0xA0 || u == 0x1680 || (0x2000 <= u
        && u <= 0x200A) || u == 0x2028 || u == 0x2029 || u == 0x202F || u == 0x205F || u == 0x3000
}

/// The text with leading and trailing whitespace removed.
pub fn trim(s: &str) -> (r: String)
    ensures
        r@ == trimmed(s@),
{
    let n = s.unicode_len();
    let mut i: usize = 0;
    assert(s@.subrange(0, n as int) =~= s@);
    while i < n && is_white_char(s.get_char(i))
        invariant
            n == s@.len(),
            i <= n,
            trim_start(s@) == trim_start(s@.subrange(i as int, n as int)),
        decreases n - i,
    {
        assert(s@.subrange(i as int, n as int).drop_first() =~= s@.subrange(i as int + 1, n as int));
        i = i + 1;
    }
    assert(trim_start(s@) == s@.subrange(i as int, n as int));
    let mut j: usize = n;
    while j > i && is_white_char(s.get_char(j - 1))
        invariant
            n == s@.len(),
            i <= j <= n,
            trimmed(s@) == trim_end(s@.subrange(i as int, j as int)),
        decreases j,
    {
        assert(s@.subrange(i as int, j as int).drop_last() =~= s@.subrange(i as int, j - 1));
        j = j - 1;
    }
    s.substring_char(i, j).to_owned()
}

/// Mathematical value of what a command line has been read into so far.
pub struct ArgsModel {
    pub strict: bool,
    pub entry: Option<Seq<char>>,
    pub args: Seq<Seq<char>>,
}

/// An argument that starts with a dash is a flag.
pub open spec fn is_flag(arg: Seq<char>) -> bool {
    arg.len() > 0 && arg[0] == '-'
}

/// Reads one more argument: a known flag sets it, an unknown one is an
/// error; any other argument becomes the entry once the entry flag has been
/// seen, and is kept as an argument otherwise.
pub open spec fn read_arg(st: ArgsModel, arg: Seq<char>) -> Result<ArgsModel, Seq<char>> {
    if is_flag(arg) {
        if arg == "--strict"@ || arg == "-s"@ {
            Ok(ArgsModel { strict: true, entry: st.entry, args: st.args })
        } else if arg == "--entry"@ || arg == "-e"@ {
            Ok(ArgsModel { strict: st.strict, entry: Some(Seq::empty()), args: st.args })
        } else {
            Err(arg.subrange(1, arg.len() as int))
        }
    } else if st.entry is Some {
        Ok(ArgsModel { strict: st.strict, entry: Some(arg), args: st.args })
    } else {
        Ok(ArgsModel { strict: st.strict, entry: st.entry, args: st.args.push(arg) })
    }
}

/// Reads the arguments in order, from no flags and no arguments.
pub open spec fn read_args(args: Seq<Seq<char>>) -> Result<ArgsModel, Seq<char>>
    decreases args.len(),
{
    if args.len() == 0 {
        Ok(ArgsModel { strict: false, entry: None, args: Seq::empty() })
    } else {
        match read_args(args.drop_last()) {
            Err(flag) => Err(flag),
            Ok(st) => read_arg(st, args.last()),
        }
    }
}

/// Each argument followed by one space.
pub open spec fn spaced(args: Seq<Seq<char>>) -> Seq<char>
    decreases args.len(),
{
    if args.len() == 0 {
        Seq::empty()
    } else {
        spaced(args.drop_last()) + args.last() + seq![' ']
    }
}

/// The texts of a sequence of strings.
pub open spec fn texts(v: Seq<String>) -> Seq<Seq<char>> {
    v.map_values(|s: String| s@)
}

/// The text of an optional string.
pub open spec fn opt_text(o: Option<String>) -> Option<Seq<char>> {
    match o {
        Some(s) => Some(s@),
        None => None,
    }
}

proof fn lemma_error_stays(s: Seq<Seq<char>>, k: int, flag: Seq<char>)
    requires
        0 <= k <= s.len(),
        read_args(s.subrange(0, k)) == Err::<ArgsModel, Seq<char>>(flag),
    ensures
        read_args(s) == Err::<ArgsModel, Seq<char>>(flag),
    decreases s.len() - k,
{
    if k < s.len() {
        assert(s.subrange(0, k + 1).drop_last() =~= s.subrange(0, k));
        lemma_error_stays(s, k + 1, flag);
    } else {
        assert(s.subrange(0, k) =~= s);
    }
}

/// Reads a command line whose first word is the command's name.
pub fn parse_args(args: &[String]) -> (r: Result<Command, UnknownFlag>)
    requires
        args@.len() > 0,
    ensures
        ({
            let rest = texts(args@.subrange(1, args@.len() as int));
            &&& (r is Ok <==> read_args(rest) is Ok)
            &&& (r matches Err(e) ==> read_args(rest) == Err::<ArgsModel, Seq<char>>(e.flag@))
            &&& (r matches Ok(c) ==> {
                &&& c.name@ == args@[0]@
                &&& read_args(rest) == Ok::<ArgsModel, Seq<char>>(
                    ArgsModel {
                        strict: c.flags.strict,
                        entry: opt_text(c.flags.entry),
                        args: texts(c.args@),
                    },
                )
                &&& c.raw_args@ == trimmed(spaced(texts(c.args@)))
            })
        }),
{
    let ghost all = texts(args@.subrange(1, args@.len() as int));
    let n = args.len();
    let strict_long = "--strict".to_owned();
    let strict_short = "-s".to_owned();
    let entry_long = "--entry".to_owned();
    let entry_short = "-e".to_owned();
    let mut filtered_args: Vec<String> = Vec::new();
    let mut flags = CommandFlags { strict: false, entry: None };
    let mut i: usize = 1;
    assert(texts(filtered_args@) =~= Seq::<Seq<char>>::empty());
    assert(all.subrange(0, 0) =~= Seq::<Seq<char>>::empty());
    while i < n
        invariant
            n == args@.len(),
            1 <= i <= n,
            all == texts(args@.subrange(1, n as int)),
            strict_long@ == "--strict"@,
            strict_short@ == "-s"@,
            entry_long@ == "--entry"@,
            entry_short@ == "-e"@,
            read_args(all.subrange(0, i - 1)) == Ok::<ArgsModel, Seq<char>>(
                ArgsModel {
                    strict: flags.strict,
                    entry: opt_text(flags.entry),
                    args: texts(filtered_args@),
                },
            ),
        decreases n - i,
    {
        let arg = &args[i];
        let ghost prefix = all.subrange(0, i as int);
        assert(prefix.drop_last() =~= all.subrange(0, i - 1));
        assert(prefix.last() == arg@);
        let text = arg.as_str();
        let len = text.unicode_len();
        if len > 0 && text.get_char(0) == '-' {
            if *arg == strict_long || *arg == strict_short {
                flags.strict = true;
            } else if *arg == entry_long || *arg == entry_short {
                flags.entry = Some(String::new());
            } else {
                let flag = text.substring_char(1, len).to_owned();
                proof {
                    lemma_error_stays(all, i as int, flag@);
                }
                return Err(UnknownFlag { flag });
            }
        } else if flags.entry.is_some() {
            flags.entry = Some(arg.clone());
        } else {
            let ghost kept = texts(filtered_args@);
            filtered_args.push(arg.clone());
            assert(texts(filtered_args@) =~= kept.push(arg@));
        }
        i = i + 1;
    }
    assert(all.subrange(0, n - 1) =~= all);
    let mut joined = String::new();
    let m = filtered_args.len();
    let mut j: usize = 0;
    proof {
        reveal_strlit(" ");
    }
    while j < m
        invariant
            m == filtered_args@.len(),
            j <= m,
            " "@ == seq![' '],
            joined@ == spaced(texts(filtered_args@.subrange(0, j as int))),
        decreases m - j,
    {
        let ghost before = texts(filtered_args@.subrange(0, j as int));
        joined.append(filtered_args[j].as_str());
        joined.append(" ");
        assert(texts(filtered_args@.subrange(0, j as int + 1)).drop_last() =~= before);
        j = j + 1;
    }
    assert(filtered_args@.subrange(0, m as int) =~= filtered_args@);
    let raw_args = trim(joined.as_str());
    Ok(Command { name: args[0].clone(), flags, args: filtered_args, raw_args })
}

} // verus!
