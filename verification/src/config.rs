//! The node's command-line arguments.

use vstd::prelude::*;
use vstd::string::StringSliceAdditionalSpecFns;
use vstd::utf8::encode_utf8;

verus! {

/// What a node is started with.
pub struct NodeConfig {
    /// The HTTP API port.
    pub port: u16,
    /// The peer-to-peer port.
    pub p2p_port: u16,
    /// The proof-of-work difficulty.
    pub difficulty: u32,
    /// The addresses of the peers to connect to at start, as given.
    pub bootstrap_peers: Vec<String>,
}

impl Default for NodeConfig {
    fn default() -> (c: NodeConfig)
        ensures
            c.port == 3000,
            c.p2p_port == 3001,
            c.difficulty == 4,
            c.bootstrap_peers@.len() == 0,
    {
        NodeConfig { port: 3000, p2p_port: 3001, difficulty: 4, bootstrap_peers: Vec::new() }
    }
}

/// A complaint about an argument; parsing goes on after it.
pub enum ArgWarning {
    InvalidPort,
    InvalidP2pPort,
    InvalidDifficulty,
    InvalidPeerAddress(String),
    UnknownArgument(String),
}

/// The outcome of reading the arguments.
pub struct ParsedArgs {
    pub config: NodeConfig,
    /// The complaints, in the order of the arguments.
    pub warnings: Vec<ArgWarning>,
    /// Whether help was asked for; reading stops at that argument.
    pub show_help: bool,
}

/// The view of an [`ArgWarning`].
pub enum WarningView {
    InvalidPort,
    InvalidP2pPort,
    InvalidDifficulty,
    InvalidPeerAddress(Seq<char>),
    UnknownArgument(Seq<char>),
}

impl View for ArgWarning {
    type V = WarningView;

    open spec fn view(&self) -> WarningView {
        match self {
            ArgWarning::InvalidPort => WarningView::InvalidPort,
            ArgWarning::InvalidP2pPort => WarningView::InvalidP2pPort,
            ArgWarning::InvalidDifficulty => WarningView::InvalidDifficulty,
            ArgWarning::InvalidPeerAddress(a) => WarningView::InvalidPeerAddress(a@),
            ArgWarning::UnknownArgument(a) => WarningView::UnknownArgument(a@),
        }
    }
}

/// The view of the outcome of reading the arguments.
pub struct ArgsView {
    pub port: u16,
    pub p2p_port: u16,
    pub difficulty: u32,
    pub peers: Seq<Seq<char>>,
    pub warnings: Seq<WarningView>,
    pub show_help: bool,
}

impl View for ParsedArgs {
    type V = ArgsView;

    open spec fn view(&self) -> ArgsView {
        ArgsView {
            port: self.config.port,
            p2p_port: self.config.p2p_port,
            difficulty: self.config.difficulty,
            peers: self.config.bootstrap_peers@.map_values(|s: String| s@),
            warnings: self.warnings@.map_values(|w: ArgWarning| w@),
            show_help: self.show_help,
        }
    }
}

/// Whether every byte is an ASCII digit.
pub open spec fn all_digits(d: Seq<u8>) -> bool {
    forall|i: int| 0 <= i < d.len() ==> 48 <= #[trigger] d[i] <= 57
}

/// The number that decimal digits stand for.
pub open spec fn digits_value(d: Seq<u8>) -> int
    decreases d.len(),
{
    if d.len() == 0 {
        0
    } else {
        digits_value(d.drop_last()) * 10 + (d.last() - 48)
    }
}

/// What reading an unsigned decimal number of at most `max` from `text`
/// gives: an optional `+`, then at least one digit, and a value in range.
pub open spec fn parse_unsigned(text: Seq<u8>, max: int) -> Option<int> {
    let digits = if text.len() > 0 && text[0] == 43 {
        text.drop_first()
    } else {
        text
    };
    if digits.len() == 0 || !all_digits(digits) || digits_value(digits) > max {
        None
    } else {
        Some(digits_value(digits))
    }
}

proof fn lemma_digits_value_grows(d: Seq<u8>, k: int)
    requires
        all_digits(d),
        0 <= k <= d.len(),
    ensures
        digits_value(d.take(k)) <= digits_value(d),
        0 <= digits_value(d.take(k)),
    decreases d.len(),
{
    if d.len() > 0 {
        if k == d.len() {
            assert(d.take(k) =~= d);
            lemma_digits_value_grows(d.drop_last(), k - 1);
            assert(d.drop_last().take(k - 1) =~= d.drop_last());
        } else {
            lemma_digits_value_grows(d.drop_last(), k);
            assert(d.drop_last().take(k) =~= d.take(k));
            lemma_digits_value_grows(d.drop_last(), d.len() - 1);
            assert(d.drop_last().take(d.len() - 1) =~= d.drop_last());
        }
    } else {
        assert(d.take(k) =~= d);
    }
}

/// Reads an unsigned decimal number of at most `max` as Rust's `str::parse`
/// does for unsigned integers.
pub fn parse_decimal(text: &str, max: u64) -> (n: Option<u64>)
    requires
        max <= u32::MAX,
    ensures
        match n {
            Some(v) => parse_unsigned(text.spec_bytes(), max as int) == Some(v as int),
            None => parse_unsigned(text.spec_bytes(), max as int) is None,
        },
{
    let bytes = text.as_bytes();
    let len = bytes.len();
    let start: usize = if len > 0 && bytes[0] == 43u8 {
        1
    } else {
        0
    };
    let ghost digits = if bytes@.len() > 0 && bytes@[0] == 43 {
        bytes@.drop_first()
    } else {
        bytes@
    };
    assert(digits =~= bytes@.skip(start as int));
    if start == len {
        return None;
    }
    let mut value: u64 = 0;
    let mut i: usize = start;
    while i < len
        invariant
            len == bytes@.len(),
            bytes@ == text.spec_bytes(),
            digits == (if bytes@.len() > 0 && bytes@[0] == 43 {
                bytes@.drop_first()
            } else {
                bytes@
            }),
            start <= i <= len,
            digits == bytes@.skip(start as int),
            max <= u32::MAX,
            value <= max,
            all_digits(digits.take(i - start)),
            value == digits_value(digits.take(i - start)),
        decreases len - i,
    {
        let c = bytes[i];
        if c < 48u8 || c > 57u8 {
            assert(digits[i - start] == c);
            assert(!all_digits(digits));
            return None;
        }
        let ghost pre = digits.take(i - start);
        let ghost next = digits.take(i - start + 1);
        assert(next.drop_last() =~= pre);
        assert(next.last() == c);
        let v = value * 10 + (c - 48u8) as u64;
        i = i + 1;
        assert(all_digits(next));
        if v > max {
            proof {
                if all_digits(digits) {
                    lemma_digits_value_grows(digits, i - start);
                    assert(digits_value(digits) > max);
                }
            }
            return None;
        }
        value = v;
    }
    assert(digits.take(i - start) =~= digits);
    Some(value)
}

/// The kinds of argument that the node knows.
pub enum Flag {
    Port,
    P2pPort,
    Difficulty,
    Connect,
    Help,
    Unknown,
}

/// The kind of an argument.
pub open spec fn flag_of(a: Seq<char>) -> Flag {
    if a == "--port"@ || a == "-p"@ {
        Flag::Port
    } else if a == "--p2p-port"@ {
        Flag::P2pPort
    } else if a == "--difficulty"@ || a == "-d"@ {
        Flag::Difficulty
    } else if a == "--connect"@ || a == "--bootstrap"@ {
        Flag::Connect
    } else if a == "--help"@ || a == "-h"@ {
        Flag::Help
    } else {
        Flag::Unknown
    }
}

/// Reading the arguments from position `i` on, with `st` read so far.
/// `addr_ok[j]` tells whether argument `j` is a valid socket address.
pub open spec fn read_args(args: Seq<Seq<char>>, addr_ok: Seq<bool>, i: int, st: ArgsView) -> ArgsView
    decreases args.len() - i,
{
    if i < 0 || i >= args.len() {
        st
    } else {
        let has_value = i + 1 < args.len();
        match flag_of(args[i]) {
            Flag::Help => ArgsView { show_help: true, ..st },
            Flag::Port => if !has_value {
                read_args(args, addr_ok, i + 1, st)
            } else {
                match parse_unsigned(encode_utf8(args[i + 1]), 65535) {
                    Some(v) => read_args(args, addr_ok, i + 2, ArgsView { port: v as u16, ..st }),
                    None => read_args(
                        args,
                        addr_ok,
                        i + 1,
                        ArgsView { warnings: st.warnings.push(WarningView::InvalidPort), ..st },
                    ),
                }
            },
            Flag::P2pPort => if !has_value {
                read_args(args, addr_ok, i + 1, st)
            } else {
                match parse_unsigned(encode_utf8(args[i + 1]), 65535) {
                    Some(v) => read_args(args, addr_ok, i + 2, ArgsView { p2p_port: v as u16, ..st }),
                    None => read_args(
                        args,
                        addr_ok,
                        i + 1,
                        ArgsView { warnings: st.warnings.push(WarningView::InvalidP2pPort), ..st },
                    ),
                }
            },
            Flag::Difficulty => if !has_value {
                read_args(args, addr_ok, i + 1, st)
            } else {
                match parse_unsigned(encode_utf8(args[i + 1]), u32::MAX as int) {
                    Some(v) => read_args(
                        args,
                        addr_ok,
                        i + 2,
                        ArgsView { difficulty: v as u32, ..st },
                    ),
                    None => read_args(
                        args,
                        addr_ok,
                        i + 1,
                        ArgsView { warnings: st.warnings.push(WarningView::InvalidDifficulty), ..st },
                    ),
                }
            },
            Flag::Connect => if !has_value {
                read_args(args, addr_ok, i + 1, st)
            } else if addr_ok[i + 1] {
                read_args(args, addr_ok, i + 2, ArgsView { peers: st.peers.push(args[i + 1]), ..st })
            } else {
                read_args(
                    args,
                    addr_ok,
                    i + 1,
                    ArgsView {
                        warnings: st.warnings.push(WarningView::InvalidPeerAddress(args[i + 1])),
                        ..st
                    },
                )
            },
            Flag::Unknown => read_args(
                args,
                addr_ok,
                i + 1,
                ArgsView { warnings: st.warnings.push(WarningView::UnknownArgument(args[i])), ..st },
            ),
        }
    }
}

/// The defaults: ports 3000 and 3001, difficulty 4, no peers, no complaint.
pub open spec fn default_args() -> ArgsView {
    ArgsView {
        port: 3000,
        p2p_port: 3001,
        difficulty: 4,
        peers: Seq::empty(),
        warnings: Seq::empty(),
        show_help: false,
    }
}

/// Reading stops at `--help` or `-h`, wherever it comes: what was read so far
/// stays, help is asked for, and that argument draws no complaint.
pub proof fn lemma_help_stops_reading(args: Seq<Seq<char>>, addr_ok: Seq<bool>, i: int, st: ArgsView)
    requires
        0 <= i < args.len(),
        args[i] == "--help"@ || args[i] == "-h"@,
    ensures
        read_args(args, addr_ok, i, st) == (ArgsView { show_help: true, ..st }),
{
    reveal_strlit("--help");
    reveal_strlit("-h");
    reveal_strlit("--port");
    reveal_strlit("-p");
    reveal_strlit("--p2p-port");
    reveal_strlit("--difficulty");
    reveal_strlit("-d");
    reveal_strlit("--connect");
    reveal_strlit("--bootstrap");
    let a = args[i];
    if a == "--help"@ {
        assert(a.len() == 6);
        assert(a[2] == 'h');
    } else {
        assert(a.len() == 2);
        assert(a[1] == 'h');
    }
    assert(a != "--port"@ && a != "-p"@ && a != "--p2p-port"@ && a != "--difficulty"@ && a != "-d"@
        && a != "--connect"@ && a != "--bootstrap"@);
}

/// Started with `--help` or `-h` as the first argument, the node asks for
/// help with the default settings and no complaint.
pub proof fn lemma_help_first(args: Seq<Seq<char>>, addr_ok: Seq<bool>)
    requires
        args.len() >= 2,
        args[1] == "--help"@ || args[1] == "-h"@,
    ensures
        read_args(args, addr_ok, 1, default_args()).show_help,
        read_args(args, addr_ok, 1, default_args()).warnings.len() == 0,
        read_args(args, addr_ok, 1, default_args()).peers.len() == 0,
        read_args(args, addr_ok, 1, default_args()).port == 3000,
        read_args(args, addr_ok, 1, default_args()).p2p_port == 3001,
        read_args(args, addr_ok, 1, default_args()).difficulty == 4,
{
    lemma_help_stops_reading(args, addr_ok, 1, default_args());
}

fn is_text(s: &String, lit: &str) -> (same: bool)
    ensures
        same == (s@ == lit@),
{
    let l = lit.to_owned();
    *s == l
}

fn flag(a: &String) -> (f: Flag)
    ensures
        f == flag_of(a@),
{
    if is_text(a, "--port") || is_text(a, "-p") {
        Flag::Port
    } else if is_text(a, "--p2p-port") {
        Flag::P2pPort
    } else if is_text(a, "--difficulty") || is_text(a, "-d") {
        Flag::Difficulty
    } else if is_text(a, "--connect") || is_text(a, "--bootstrap") {
        Flag::Connect
    } else if is_text(a, "--help") || is_text(a, "-h") {
        Flag::Help
    } else {
        Flag::Unknown
    }
}

/// Reads the node's arguments; the first one, the program name, is skipped.
/// `addr_ok[j]` tells whether `args[j]` reads as a socket address.
pub fn parse_args(args: &Vec<String>, addr_ok: &Vec<bool>) -> (parsed: ParsedArgs)
    requires
        addr_ok@.len() == args@.len(),
    ensures
        parsed@ == read_args(args@.map_values(|s: String| s@), addr_ok@, 1, default_args()),
{
    let ghost av = args@.map_values(|s: String| s@);
    let config = NodeConfig { port: 3000, p2p_port: 3001, difficulty: 4, bootstrap_peers: Vec::new() };
    let mut parsed = ParsedArgs { config, warnings: Vec::new(), show_help: false };
    assert(parsed@.peers =~= Seq::<Seq<char>>::empty());
    assert(parsed@.warnings =~= Seq::<WarningView>::empty());
    assert(parsed@ == default_args());
    let n = args.len();
    let mut i: usize = 1;
    while i < n
        invariant
            n == args@.len(),
            av == args@.map_values(|s: String| s@),
            addr_ok@.len() == n,
            i >= 1,
            !parsed.show_help,
            read_args(av, addr_ok@, 1, default_args()) == read_args(av, addr_ok@, i as int, parsed@),
        decreases n - i,
    {
        let ghost st = parsed@;
        let ghost here = i as int;
        assert(av[here] == args@[here]@);
        let has_value = i + 1 < n;
        match flag(&args[i]) {
            Flag::Help => {
                parsed.show_help = true;
                assert(parsed@ =~= ArgsView { show_help: true, ..st });
                return parsed;
            },
            Flag::Port => {
                if has_value {
                    assert(av[here + 1] == args@[here + 1]@);
                    match parse_decimal(args[i + 1].as_str(), 65535) {
                        Some(v) => {
                            parsed.config.port = v as u16;
                            i = i + 1;
                        },
                        None => {
                            parsed.warnings.push(ArgWarning::InvalidPort);
                            assert(parsed@.warnings =~= st.warnings.push(WarningView::InvalidPort));
                        },
                    }
                }
            },
            Flag::P2pPort => {
                if has_value {
                    assert(av[here + 1] == args@[here + 1]@);
                    match parse_decimal(args[i + 1].as_str(), 65535) {
                        Some(v) => {
                            parsed.config.p2p_port = v as u16;
                            i = i + 1;
                        },
                        None => {
                            parsed.warnings.push(ArgWarning::InvalidP2pPort);
                            assert(parsed@.warnings =~= st.warnings.push(WarningView::InvalidP2pPort));
                        },
                    }
                }
            },
            Flag::Difficulty => {
                if has_value {
                    assert(av[here + 1] == args@[here + 1]@);
                    match parse_decimal(args[i + 1].as_str(), 4294967295) {
                        Some(v) => {
                            parsed.config.difficulty = v as u32;
                            i = i + 1;
                        },
                        None => {
                            parsed.warnings.push(ArgWarning::InvalidDifficulty);
                            assert(parsed@.warnings =~= st.warnings.push(WarningView::InvalidDifficulty));
                        },
                    }
                }
            },
            Flag::Connect => {
                if has_value {
                    assert(av[here + 1] == args@[here + 1]@);
                    if addr_ok[i + 1] {
                        parsed.config.bootstrap_peers.push(args[i + 1].clone());
                        assert(parsed@.peers =~= st.peers.push(av[here + 1]));
                        i = i + 1;
                    } else {
                        parsed.warnings.push(ArgWarning::InvalidPeerAddress(args[i + 1].clone()));
                        assert(parsed@.warnings =~= st.warnings.push(
                            WarningView::InvalidPeerAddress(av[here + 1]),
                        ));
                    }
                }
            },
            Flag::Unknown => {
                parsed.warnings.push(ArgWarning::UnknownArgument(args[i].clone()));
                assert(parsed@.warnings =~= st.warnings.push(WarningView::UnknownArgument(av[here])));
            },
        }
        i = i + 1;
        proof {
            assert(parsed@.peers =~= parsed.config.bootstrap_peers@.map_values(|s: String| s@));
        }
    }
    parsed
}

} // verus!
