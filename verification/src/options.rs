//! Command lines of the test and benchmark programs.

use crate::text::{parse_i32, parse_unsigned};
#[allow(unused_imports)]
use crate::text::{
    decimal, law_number_is_read_back, law_signed_number_is_read_back, law_what_is_a_number,
    signed_decimal, signed_value, unsigned_value,
};
use vstd::prelude::*;

verus! {

/// The number of at most `max` in argument `i`, or `default` where there is no such
/// argument or it is no such number.
pub open spec fn unsigned_or(args: Seq<String>, i: int, max: int, default: nat) -> nat {
    if i < args.len() {
        match unsigned_value(args[i]@, max) {
            Some(v) => v,
            None => default,
        }
    } else {
        default
    }
}

/// The number in argument `i`, or `default` where there is no such argument or it is no
/// number in the range of an `i32`.
pub open spec fn signed_or(args: Seq<String>, i: int, default: int) -> int {
    if i < args.len() {
        match signed_value(args[i]@) {
            Some(v) => v,
            None => default,
        }
    } else {
        default
    }
}

/// Reads the number of at most `max` in argument `i`.
fn unsigned_arg(args: &Vec<String>, i: usize, max: u64, default: u64) -> (r: u64)
    requires
        default <= max,
    ensures
        r == unsigned_or(args@, i as int, max as int, default as nat),
        r <= max,
{
    if i < args.len() {
        match parse_unsigned(args[i].as_str(), max) {
            Some(v) => v,
            None => default,
        }
    } else {
        default
    }
}

/// Reads the number in argument `i`.
fn signed_arg(args: &Vec<String>, i: usize, default: i32) -> (r: i32)
    ensures
        r == signed_or(args@, i as int, default as int),
{
    if i < args.len() {
        match parse_i32(args[i].as_str()) {
            Some(v) => v,
            None => default,
        }
    } else {
        default
    }
}

/// Whether an argument is this word.
fn is_word(arg: &String, word: &str) -> (r: bool)
    ensures
        r == (arg@ == word@),
{
    let expected: String = String::from_str(word);
    *arg == expected
}

/// The command line of the soak test: its duration and the port.
#[derive(Debug, Clone, Copy, PartialEq, Eq, Structural)]
pub struct SoakOptions {
    pub duration_secs: u64,
    pub port: u16,
}

impl SoakOptions {
    /// Reads the arguments, of which the first is the program.
    pub fn from_args(args: &Vec<String>) -> (r: SoakOptions)
        ensures
            r.duration_secs == unsigned_or(args@, 1, u64::MAX as int, 10),
            r.port == unsigned_or(args@, 2, u16::MAX as int, 19876),
    {
        SoakOptions {
            duration_secs: unsigned_arg(args, 1, u64::MAX, 10),
            port: unsigned_arg(args, 2, u16::MAX as u64, 19876) as u16,
        }
    }
}

/// The command line of the performance benchmark.
#[derive(Debug, Clone, Copy, PartialEq, Eq, Structural)]
pub struct PerfOptions {
    pub duration_secs: u64,
    pub num_clients: usize,
    pub payload_size: usize,
    pub burst: usize,
}

impl PerfOptions {
    /// Reads the arguments, of which the first is the program.
    pub fn from_args(args: &Vec<String>) -> (r: PerfOptions)
        ensures
            r.duration_secs == unsigned_or(args@, 1, u64::MAX as int, 10),
            r.num_clients == unsigned_or(args@, 2, usize::MAX as int, 4),
            r.payload_size == unsigned_or(args@, 3, usize::MAX as int, 1100),
            r.burst == unsigned_or(args@, 4, usize::MAX as int, 32),
    {
        PerfOptions {
            duration_secs: unsigned_arg(args, 1, u64::MAX, 10),
            num_clients: unsigned_arg(args, 2, usize::MAX as u64, 4) as usize,
            payload_size: unsigned_arg(args, 3, usize::MAX as u64, 1100) as usize,
            burst: unsigned_arg(args, 4, usize::MAX as u64, 32) as usize,
        }
    }
}

/// The command line of the network benchmark.
#[derive(Debug)]
pub enum BenchCommand {
    /// There is no mode.
    Usage,
    Server { port: u16, workers: i32, sockets: i32 },
    Client {
        server_ip: String,
        port: u16,
        num_clients: usize,
        duration_secs: u64,
        payload_size: usize,
        burst: usize,
        coalesced: bool,
    },
    /// There is no such mode.
    UnknownMode(String),
}

impl BenchCommand {
    /// Whether this is what the arguments, of which the first is the program, ask for.
    pub open spec fn is_asked_by(self, args: Seq<String>) -> bool {
        if args.len() < 2 {
            self is Usage
        } else if args[1]@ == "server"@ {
            self matches BenchCommand::Server { port, workers, sockets } && {
                &&& port == unsigned_or(args, 2, u16::MAX as int, 19877)
                &&& workers == signed_or(args, 3, 4)
                &&& sockets == signed_or(args, 4, 4)
            }
        } else if args[1]@ == "client"@ {
            self matches BenchCommand::Client {
                server_ip,
                port,
                num_clients,
                duration_secs,
                payload_size,
                burst,
                coalesced,
            } && {
                &&& server_ip@ == (if args.len() > 2 {
                    args[2]@
                } else {
                    "127.0.0.1"@
                })
                &&& port == unsigned_or(args, 3, u16::MAX as int, 19877)
                &&& num_clients == unsigned_or(args, 4, usize::MAX as int, 4)
                &&& duration_secs == unsigned_or(args, 5, u64::MAX as int, 10)
                &&& payload_size == unsigned_or(args, 6, usize::MAX as int, 1100)
                &&& burst == unsigned_or(args, 7, usize::MAX as int, 32)
                &&& coalesced == (signed_or(args, 8, 0) != 0)
            }
        } else {
            self matches BenchCommand::UnknownMode(mode) && mode@ == args[1]@
        }
    }

    /// Reads the arguments, of which the first is the program.
    pub fn from_args(args: &Vec<String>) -> (r: BenchCommand)
        ensures
            r.is_asked_by(args@),
    {
        if args.len() < 2 {
            return BenchCommand::Usage;
        }
        if is_word(&args[1], "server") {
            BenchCommand::Server {
                port: unsigned_arg(args, 2, u16::MAX as u64, 19877) as u16,
                workers: signed_arg(args, 3, 4),
                sockets: signed_arg(args, 4, 4),
            }
        } else if is_word(&args[1], "client") {
            let server_ip: String = if args.len() > 2 {
                args[2].clone()
            } else {
                String::from_str("127.0.0.1")
            };
            BenchCommand::Client {
                server_ip,
                port: unsigned_arg(args, 3, u16::MAX as u64, 19877) as u16,
                num_clients: unsigned_arg(args, 4, usize::MAX as u64, 4) as usize,
                duration_secs: unsigned_arg(args, 5, u64::MAX, 10),
                payload_size: unsigned_arg(args, 6, usize::MAX as u64, 1100) as usize,
                burst: unsigned_arg(args, 7, usize::MAX as u64, 32) as usize,
                coalesced: signed_arg(args, 8, 0) != 0,
            }
        } else {
            BenchCommand::UnknownMode(args[1].clone())
        }
    }
}

/// What the command line of the stress test says.
pub struct StressSettings {
    pub server_addr: Seq<char>,
    pub port: nat,
    pub num_clients: nat,
    pub duration_secs: nat,
    pub rate_hz: nat,
    pub verbose: bool,
}

/// The settings where the command line says nothing.
pub open spec fn standard_stress_settings() -> StressSettings {
    StressSettings {
        server_addr: "127.0.0.1"@,
        port: 9876,
        num_clients: 100,
        duration_secs: 30,
        rate_hz: 10,
        verbose: false,
    }
}

/// The settings after the arguments from `i` on. A flag that needs a value takes the
/// argument behind it; a value that is no number resets its setting; an argument that is
/// no flag, and a flag without its value, is ignored.
pub open spec fn read_flags(args: Seq<String>, i: int, s: StressSettings) -> StressSettings
    decreases args.len() - i,
{
    if i >= args.len() {
        s
    } else if args[i]@ == "-v"@ {
        read_flags(args, i + 1, StressSettings { verbose: true, ..s })
    } else if i + 1 < args.len() && args[i]@ == "-s"@ {
        read_flags(args, i + 2, StressSettings { server_addr: args[i + 1]@, ..s })
    } else if i + 1 < args.len() && args[i]@ == "-p"@ {
        let port = unsigned_or(args, i + 1, u16::MAX as int, 9876);
        read_flags(args, i + 2, StressSettings { port, ..s })
    } else if i + 1 < args.len() && args[i]@ == "-c"@ {
        let num_clients = unsigned_or(args, i + 1, usize::MAX as int, 100);
        read_flags(args, i + 2, StressSettings { num_clients, ..s })
    } else if i + 1 < args.len() && args[i]@ == "-t"@ {
        let duration_secs = unsigned_or(args, i + 1, u64::MAX as int, 30);
        read_flags(args, i + 2, StressSettings { duration_secs, ..s })
    } else if i + 1 < args.len() && args[i]@ == "-r"@ {
        let rate_hz = unsigned_or(args, i + 1, u64::MAX as int, 10);
        read_flags(args, i + 2, StressSettings { rate_hz, ..s })
    } else {
        read_flags(args, i + 1, s)
    }
}

/// The command line of the stress test.
#[derive(Debug)]
pub struct StressOptions {
    pub server_addr: String,
    pub port: u16,
    pub num_clients: usize,
    pub duration_secs: u64,
    pub rate_hz: u64,
    pub verbose: bool,
}

impl View for StressOptions {
    type V = StressSettings;

    open spec fn view(&self) -> StressSettings {
        StressSettings {
            server_addr: self.server_addr@,
            port: self.port as nat,
            num_clients: self.num_clients as nat,
            duration_secs: self.duration_secs as nat,
            rate_hz: self.rate_hz as nat,
            verbose: self.verbose,
        }
    }
}

impl StressOptions {
    /// Reads the arguments, of which the first is the program.
    pub fn from_args(args: &Vec<String>) -> (r: StressOptions)
        ensures
            r@ == read_flags(args@, 1, standard_stress_settings()),
    {
        let mut r = StressOptions {
            server_addr: String::from_str("127.0.0.1"),
            port: 9876,
            num_clients: 100,
            duration_secs: 30,
            rate_hz: 10,
            verbose: false,
        };
        let ghost standard = standard_stress_settings();
        let mut i: usize = 1;
        while i < args.len()
            invariant
                1 <= i,
                standard == standard_stress_settings(),
                read_flags(args@, i as int, r@) == read_flags(args@, 1, standard),
            decreases args@.len() - i,
        {
            let has_value: bool = i < args.len() - 1;
            if is_word(&args[i], "-v") {
                r.verbose = true;
                i = i + 1;
            } else if has_value && is_word(&args[i], "-s") {
                r.server_addr = args[i + 1].clone();
                i = i + 2;
            } else if has_value && is_word(&args[i], "-p") {
                r.port = unsigned_arg(args, i + 1, u16::MAX as u64, 9876) as u16;
                i = i + 2;
            } else if has_value && is_word(&args[i], "-c") {
                r.num_clients = unsigned_arg(args, i + 1, usize::MAX as u64, 100) as usize;
                i = i + 2;
            } else if has_value && is_word(&args[i], "-t") {
                r.duration_secs = unsigned_arg(args, i + 1, u64::MAX, 30);
                i = i + 2;
            } else if has_value && is_word(&args[i], "-r") {
                r.rate_hz = unsigned_arg(args, i + 1, u64::MAX, 10);
                i = i + 2;
            } else {
                i = i + 1;
            }
        }
        r
    }
}

/// An argument that is a number within its limit is taken, whatever the default, and the default
/// is used exactly where the argument is missing or is no such number.
pub proof fn law_number_or_default(args: Seq<String>, i: int, n: nat, max: int, default: nat)
    requires
        0 <= i,
    ensures
        i >= args.len() ==> unsigned_or(args, i, max, default) == default,
        i < args.len() && args[i]@ == decimal(n) && n <= max ==> unsigned_or(args, i, max, default)
            == n,
        i < args.len() && args[i]@ == decimal(n) && n > max ==> unsigned_or(args, i, max, default)
            == default,
        i < args.len() && args[i]@.len() == 0 ==> unsigned_or(args, i, max, default) == default,
        i < args.len() && args[i]@.len() > 0 && args[i]@[0] == '-' ==> unsigned_or(
            args,
            i,
            max,
            default,
        ) == default,
{
    law_number_is_read_back(n, max);
    if i < args.len() {
        law_what_is_a_number(args[i]@, max);
    }
}

/// The same of a number with a sign, whose limits are those of an `i32`.
pub proof fn law_signed_or_default(args: Seq<String>, i: int, n: int, default: int)
    requires
        0 <= i,
    ensures
        i >= args.len() ==> signed_or(args, i, default) == default,
        i < args.len() && args[i]@ == signed_decimal(n) && i32::MIN <= n <= i32::MAX ==> signed_or(
            args,
            i,
            default,
        ) == n,
        i < args.len() && args[i]@ == signed_decimal(n) && !(i32::MIN <= n <= i32::MAX)
            ==> signed_or(args, i, default) == default,
        i < args.len() && args[i]@.len() == 0 ==> signed_or(args, i, default) == default,
{
    law_signed_number_is_read_back(n);
    if i < args.len() {
        law_what_is_a_number(args[i]@, 0);
    }
}

/// What the network benchmark is asked for: its second argument is the mode, and the arguments
/// behind it are taken one by one, each with its own default.
pub proof fn law_modes(command: BenchCommand, args: Seq<String>)
    requires
        command.is_asked_by(args),
    ensures
        command is Usage <==> args.len() < 2,
        command is Server <==> args.len() >= 2 && args[1]@ == "server"@,
        command is UnknownMode <==> args.len() >= 2 && args[1]@ != "server"@ && args[1]@
            != "client"@,
        command matches BenchCommand::UnknownMode(mode) ==> mode@ == args[1]@,
        command matches BenchCommand::Server { port, workers, sockets } ==> {
            &&& port == unsigned_or(args, 2, 65535, 19877)
            &&& workers == signed_or(args, 3, 4)
            &&& sockets == signed_or(args, 4, 4)
        },
        command matches BenchCommand::Client {
            server_ip,
            port,
            num_clients,
            duration_secs,
            payload_size,
            burst,
            coalesced,
        } ==> {
            &&& args.len() > 2 ==> server_ip@ == args[2]@
            &&& args.len() <= 2 ==> server_ip@ == "127.0.0.1"@
            &&& port == unsigned_or(args, 3, 65535, 19877)
            &&& num_clients == unsigned_or(args, 4, usize::MAX as int, 4)
            &&& duration_secs == unsigned_or(args, 5, u64::MAX as int, 10)
            &&& payload_size == unsigned_or(args, 6, usize::MAX as int, 1100)
            &&& burst == unsigned_or(args, 7, usize::MAX as int, 32)
            &&& coalesced <==> signed_or(args, 8, 0) != 0
        },
{
    reveal_strlit("server");
    reveal_strlit("client");
    assert("server"@[0] != "client"@[0]);
}

/// The settings of the stress test where its command line says nothing.
pub proof fn law_stress_defaults(args: Seq<String>)
    requires
        args.len() <= 1,
    ensures
        ({
            let s = read_flags(args, 1, standard_stress_settings());
            &&& s.server_addr == "127.0.0.1"@
            &&& s.port == 9876 && s.num_clients == 100
            &&& s.duration_secs == 30 && s.rate_hz == 10
            &&& !s.verbose
        }),
{
}

/// A flag of the stress test takes the argument behind it and sets what it stands for, and
/// nothing else; `-v` takes none. What is no flag is passed over, and so is a flag without the
/// argument that it needs. Later arguments go on from there.
pub proof fn law_flags(args: Seq<String>, i: int, s: StressSettings)
    requires
        0 <= i < args.len(),
    ensures
        ({
            let flag = args[i]@;
            let follows = i + 1 < args.len();
            let takes = follows && (flag == "-s"@ || flag == "-p"@ || flag == "-c"@ || flag == "-t"@
                || flag == "-r"@);
            let set = StressSettings {
                server_addr: if follows && flag == "-s"@ {
                    args[i + 1]@
                } else {
                    s.server_addr
                },
                port: if follows && flag == "-p"@ {
                    unsigned_or(args, i + 1, 65535, 9876)
                } else {
                    s.port
                },
                num_clients: if follows && flag == "-c"@ {
                    unsigned_or(args, i + 1, usize::MAX as int, 100)
                } else {
                    s.num_clients
                },
                duration_secs: if follows && flag == "-t"@ {
                    unsigned_or(args, i + 1, u64::MAX as int, 30)
                } else {
                    s.duration_secs
                },
                rate_hz: if follows && flag == "-r"@ {
                    unsigned_or(args, i + 1, u64::MAX as int, 10)
                } else {
                    s.rate_hz
                },
                verbose: s.verbose || flag == "-v"@,
            };
            read_flags(args, i, s) == read_flags(
                args,
                if takes {
                    i + 2
                } else {
                    i + 1
                },
                set,
            )
        }),
        read_flags(args, args.len() as int, s) == s,
{
    reveal_strlit("-s");
    reveal_strlit("-p");
    reveal_strlit("-c");
    reveal_strlit("-t");
    reveal_strlit("-r");
    reveal_strlit("-v");
    assert("-s"@[1] == 's' && "-p"@[1] == 'p' && "-c"@[1] == 'c' && "-t"@[1] == 't' && "-r"@[1]
        == 'r' && "-v"@[1] == 'v');
}

} // verus!
