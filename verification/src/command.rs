//! The command line: its words, its limits and what each command needs.
use crate::presentation::Effect;
use crate::text::{self, IntError};
use vstd::prelude::*;

verus! {

#[derive(Debug, PartialEq, Eq)]
pub enum Command {
    App,
    RenderQa { directory: String },
    Demo { effect: Effect, seconds: u64 },
    Help,
    List,
    Probe { device: usize, index: u8 },
    Inspect { device: usize, index: u8 },
    RecoverTop { device: usize, index: u8 },
    RecoverControls { device: usize, index: u8 },
    Capture { device: usize, seconds: u64 },
    WatchTop { device: usize, seconds: u64, index: u8 },
    WatchControls { device: usize, seconds: u64, index: u8 },
    Vibrate { device: usize, intensity: u8, length: u8, index: u8 },
}

/// Why a command line was refused.
#[derive(Debug, Clone, Copy, PartialEq, Eq, Structural)]
pub enum ArgError {
    DemoEffect,
    Seconds,
    Index,
    Length,
    Number(IntError),
    Invalid,
}

impl ArgError {
    pub open spec fn spec_message(self) -> Seq<char> {
        match self {
            ArgError::DemoEffect => "Demo effect must be spotlight or laser"@,
            ArgError::Seconds => "SECONDS must be 1..300"@,
            ArgError::Index => "INDEX must be 1..6"@,
            ArgError::Length => "LENGTH must be 0..10"@,
            ArgError::Number(IntError::Empty) => "cannot parse integer from empty string"@,
            ArgError::Number(IntError::InvalidDigit) => "invalid digit found in string"@,
            ArgError::Number(IntError::Overflow) => "number too large to fit in target type"@,
            ArgError::Invalid => "Invalid arguments. Run orange-beam --help"@,
        }
    }

    pub fn message(self) -> (message: &'static str)
        ensures
            message@ == self.spec_message(),
    {
        match self {
            ArgError::DemoEffect => "Demo effect must be spotlight or laser",
            ArgError::Seconds => "SECONDS must be 1..300",
            ArgError::Index => "INDEX must be 1..6",
            ArgError::Length => "LENGTH must be 0..10",
            ArgError::Number(IntError::Empty) => "cannot parse integer from empty string",
            ArgError::Number(IntError::InvalidDigit) => "invalid digit found in string",
            ArgError::Number(IntError::Overflow) => "number too large to fit in target type",
            ArgError::Invalid => "Invalid arguments. Run orange-beam --help",
        }
    }
}

/// The number at a place of the command line, or the default where the line ends
/// before it.
pub open spec fn number_arg(args: Seq<Seq<char>>, place: int, max: nat, default: nat) -> Result<
    nat,
    ArgError,
> {
    if place < args.len() {
        match text::int_value(args[place], 10, max) {
            Ok(value) => Ok(value),
            Err(error) => Err(ArgError::Number(error)),
        }
    } else {
        Ok(default)
    }
}

/// A duration: 1 to 300 seconds.
pub open spec fn seconds_arg(args: Seq<Seq<char>>, place: int, default: nat) -> Result<
    u64,
    ArgError,
> {
    match number_arg(args, place, u64::MAX as nat, default) {
        Err(error) => Err(error),
        Ok(seconds) => if 1 <= seconds <= 300 {
            Ok(seconds as u64)
        } else {
            Err(ArgError::Seconds)
        },
    }
}

/// A receiver slot: 1 to 6, 1 where none is given.
pub open spec fn index_arg(args: Seq<Seq<char>>, place: int) -> Result<u8, ArgError> {
    match number_arg(args, place, u8::MAX as nat, 1) {
        Err(error) => Err(error),
        Ok(index) => if 1 <= index <= 6 {
            Ok(index as u8)
        } else {
            Err(ArgError::Index)
        },
    }
}

/// The number of an interface.
pub open spec fn device_arg(args: Seq<Seq<char>>) -> Result<usize, ArgError> {
    match number_arg(args, 1, usize::MAX as nat, 0) {
        Err(error) => Err(error),
        Ok(device) => Ok(device as usize),
    }
}

pub open spec fn demo_of(args: Seq<Seq<char>>) -> Result<Command, ArgError> {
    let effect = if args.len() < 2 || args[1] == "spotlight"@ {
        Some(Effect::Spotlight)
    } else if args[1] == "laser"@ {
        Some(Effect::Laser)
    } else {
        None
    };
    match (effect, seconds_arg(args, 2, 15)) {
        (None, _) => Err(ArgError::DemoEffect),
        (Some(_), Err(error)) => Err(error),
        (Some(effect), Ok(seconds)) => Ok(Command::Demo { effect, seconds }),
    }
}

/// A command that talks to one receiver slot of an interface.
pub open spec fn is_slot_command(name: Seq<char>) -> bool {
    name == "probe"@ || name == "inspect"@ || name == "recover-top-default"@ || name
        == "recover-controls-default"@
}

pub open spec fn slot_command_of(args: Seq<Seq<char>>) -> Result<Command, ArgError> {
    match (device_arg(args), index_arg(args, 2)) {
        (Err(error), _) => Err(error),
        (Ok(_), Err(error)) => Err(error),
        (Ok(device), Ok(index)) => Ok(
            if args[0] == "recover-top-default"@ {
                Command::RecoverTop { device, index }
            } else if args[0] == "recover-controls-default"@ {
                Command::RecoverControls { device, index }
            } else if args[0] == "inspect"@ {
                Command::Inspect { device, index }
            } else {
                Command::Probe { device, index }
            },
        ),
    }
}

pub open spec fn vibrate_of(args: Seq<Seq<char>>) -> Result<Command, ArgError> {
    let intensity = number_arg(args, 2, u8::MAX as nat, 128);
    let length = number_arg(args, 3, u8::MAX as nat, 0);
    let slot = number_arg(args, 4, u8::MAX as nat, 1);
    match (device_arg(args), intensity, length, slot) {
        (Err(error), _, _, _) => Err(error),
        (_, Err(error), _, _) => Err(error),
        (_, _, Err(error), _) => Err(error),
        (_, _, _, Err(error)) => Err(error),
        (Ok(device), Ok(intensity), Ok(length), Ok(slot)) => if length > 10 {
            Err(ArgError::Length)
        } else if !(1 <= slot <= 6) {
            Err(ArgError::Index)
        } else {
            Ok(
                Command::Vibrate {
                    device,
                    intensity: intensity as u8,
                    length: length as u8,
                    index: slot as u8,
                },
            )
        },
    }
}

/// A command that observes an interface for some time.
pub open spec fn is_timed_command(name: Seq<char>) -> bool {
    name == "capture"@ || name == "watch-top"@ || name == "watch-controls"@
}

pub open spec fn timed_command_of(args: Seq<Seq<char>>) -> Result<Command, ArgError> {
    let default: nat = if args[0] == "watch-top"@ {
        30
    } else if args[0] == "watch-controls"@ {
        60
    } else {
        15
    };
    match (device_arg(args), seconds_arg(args, 2, default)) {
        (Err(error), _) => Err(error),
        (Ok(_), Err(error)) => Err(error),
        (Ok(device), Ok(seconds)) => if args[0] == "capture"@ {
            Ok(Command::Capture { device, seconds })
        } else {
            match index_arg(args, 3) {
                Err(error) => Err(error),
                Ok(index) => Ok(
                    if args[0] == "watch-top"@ {
                        Command::WatchTop { device, seconds, index }
                    } else {
                        Command::WatchControls { device, seconds, index }
                    },
                ),
            }
        },
    }
}

/// The command that renders fixtures into a directory.
pub open spec fn renders_fixtures(args: Seq<Seq<char>>) -> bool {
    args.len() == 2 && args[0] == "render-fixtures"@
}

/// The command of any other command line.
pub open spec fn command_of(args: Seq<Seq<char>>) -> Result<Command, ArgError> {
    let count = args.len();
    if count == 0 {
        Ok(Command::App)
    } else if args[0] == "app"@ && count == 1 {
        Ok(Command::App)
    } else if args[0] == "demo"@ && count <= 3 {
        demo_of(args)
    } else if (args[0] == "--help"@ || args[0] == "-h"@ || args[0] == "help"@) && count == 1 {
        Ok(Command::Help)
    } else if args[0] == "list"@ && count == 1 {
        Ok(Command::List)
    } else if is_slot_command(args[0]) && 2 <= count <= 3 {
        slot_command_of(args)
    } else if args[0] == "vibrate"@ && 2 <= count <= 5 {
        vibrate_of(args)
    } else if is_timed_command(args[0]) && 2 <= count <= (if args[0] == "capture"@ {
        3nat
    } else {
        4nat
    }) {
        timed_command_of(args)
    } else {
        Err(ArgError::Invalid)
    }
}

fn parse_number(args: &[String], place: usize, max: u64, default: u64) -> (value: Result<
    u64,
    ArgError,
>)
    ensures
        match value {
            Ok(value) => number_arg(
                text::contents(args@),
                place as int,
                max as nat,
                default as nat,
            ) == Ok::<nat, ArgError>(value as nat),
            Err(error) => number_arg(
                text::contents(args@),
                place as int,
                max as nat,
                default as nat,
            ) == Err::<nat, ArgError>(error),
        },
        value matches Ok(value) ==> value <= max || value == default,
{
    if place < args.len() {
        match text::parse_int(args[place].as_str(), 10, max) {
            Ok(value) => {
                proof {
                    text::numbers_keep_the_limit(args@[place as int]@, 10, max as nat);
                }
                Ok(value)
            },
            Err(error) => Err(ArgError::Number(error)),
        }
    } else {
        Ok(default)
    }
}

fn parse_seconds(args: &[String], place: usize, default: u64) -> (seconds: Result<u64, ArgError>)
    ensures
        seconds == seconds_arg(text::contents(args@), place as int, default as nat),
{
    match parse_number(args, place, u64::MAX, default) {
        Err(error) => Err(error),
        Ok(seconds) => if 1 <= seconds && seconds <= 300 {
            Ok(seconds)
        } else {
            Err(ArgError::Seconds)
        },
    }
}

fn parse_index(args: &[String], place: usize) -> (index: Result<u8, ArgError>)
    ensures
        index == index_arg(text::contents(args@), place as int),
{
    match parse_number(args, place, u8::MAX as u64, 1) {
        Err(error) => Err(error),
        Ok(index) => if 1 <= index && index <= 6 {
            Ok(index as u8)
        } else {
            Err(ArgError::Index)
        },
    }
}

fn parse_device(args: &[String]) -> (device: Result<usize, ArgError>)
    ensures
        device == device_arg(text::contents(args@)),
{
    match parse_number(args, 1, usize::MAX as u64, 0) {
        Err(error) => Err(error),
        Ok(device) => Ok(device as usize),
    }
}

fn parse_demo(args: &[String]) -> (command: Result<Command, ArgError>)
    ensures
        command == demo_of(text::contents(args@)),
{
    let effect = if args.len() < 2 || text::same(args[1].as_str(), "spotlight") {
        Effect::Spotlight
    } else if text::same(args[1].as_str(), "laser") {
        Effect::Laser
    } else {
        return Err(ArgError::DemoEffect);
    };
    match parse_seconds(args, 2, 15) {
        Err(error) => Err(error),
        Ok(seconds) => Ok(Command::Demo { effect, seconds }),
    }
}

fn parse_slot_command(args: &[String]) -> (command: Result<Command, ArgError>)
    requires
        args@.len() >= 2,
    ensures
        command == slot_command_of(text::contents(args@)),
{
    let device = match parse_device(args) {
        Err(error) => {
            return Err(error);
        },
        Ok(device) => device,
    };
    let index = match parse_index(args, 2) {
        Err(error) => {
            return Err(error);
        },
        Ok(index) => index,
    };
    let name = args[0].as_str();
    Ok(
        if text::same(name, "recover-top-default") {
            Command::RecoverTop { device, index }
        } else if text::same(name, "recover-controls-default") {
            Command::RecoverControls { device, index }
        } else if text::same(name, "inspect") {
            Command::Inspect { device, index }
        } else {
            Command::Probe { device, index }
        },
    )
}

fn parse_vibrate(args: &[String]) -> (command: Result<Command, ArgError>)
    requires
        args@.len() >= 2,
    ensures
        command == vibrate_of(text::contents(args@)),
{
    let device = match parse_device(args) {
        Err(error) => {
            return Err(error);
        },
        Ok(device) => device,
    };
    let intensity = match parse_number(args, 2, u8::MAX as u64, 128) {
        Err(error) => {
            return Err(error);
        },
        Ok(intensity) => intensity,
    };
    let length = match parse_number(args, 3, u8::MAX as u64, 0) {
        Err(error) => {
            return Err(error);
        },
        Ok(length) => length,
    };
    let index = match parse_number(args, 4, u8::MAX as u64, 1) {
        Err(error) => {
            return Err(error);
        },
        Ok(index) => index,
    };
    if length > 10 {
        return Err(ArgError::Length);
    }
    if !(1 <= index && index <= 6) {
        return Err(ArgError::Index);
    }
    Ok(
        Command::Vibrate {
            device,
            intensity: intensity as u8,
            length: length as u8,
            index: index as u8,
        },
    )
}

fn parse_timed_command(args: &[String]) -> (command: Result<Command, ArgError>)
    requires
        args@.len() >= 2,
    ensures
        command == timed_command_of(text::contents(args@)),
{
    let name = args[0].as_str();
    let device = match parse_device(args) {
        Err(error) => {
            return Err(error);
        },
        Ok(device) => device,
    };
    let default: u64 = if text::same(name, "watch-top") {
        30
    } else if text::same(name, "watch-controls") {
        60
    } else {
        15
    };
    let seconds = match parse_seconds(args, 2, default) {
        Err(error) => {
            return Err(error);
        },
        Ok(seconds) => seconds,
    };
    if text::same(name, "capture") {
        return Ok(Command::Capture { device, seconds });
    }
    match parse_index(args, 3) {
        Err(error) => Err(error),
        Ok(index) => Ok(
            if text::same(name, "watch-top") {
                Command::WatchTop { device, seconds, index }
            } else {
                Command::WatchControls { device, seconds, index }
            },
        ),
    }
}

/// Reads the arguments of the program.
pub fn parse_args(args: &[String]) -> (command: Result<Command, ArgError>)
    ensures
        ({
            let words = text::contents(args@);
            match command {
                Ok(Command::RenderQa { directory }) => renders_fixtures(words) && directory@
                    == words[1],
                other => !renders_fixtures(words) && other == command_of(words),
            }
        }),
{
    proof {
        names_differ();
    }
    let count = args.len();
    if count == 0 {
        return Ok(Command::App);
    }
    let name = args[0].as_str();
    if text::same(name, "app") && count == 1 {
        Ok(Command::App)
    } else if text::same(name, "render-fixtures") && count == 2 {
        Ok(Command::RenderQa { directory: args[1].as_str().to_owned() })
    } else if text::same(name, "demo") && count <= 3 {
        parse_demo(args)
    } else if (text::same(name, "--help") || text::same(name, "-h") || text::same(name, "help"))
        && count == 1 {
        Ok(Command::Help)
    } else if text::same(name, "list") && count == 1 {
        Ok(Command::List)
    } else if (text::same(name, "probe") || text::same(name, "inspect") || text::same(
        name,
        "recover-top-default",
    ) || text::same(name, "recover-controls-default")) && 2 <= count && count <= 3 {
        parse_slot_command(args)
    } else if text::same(name, "vibrate") && 2 <= count && count <= 5 {
        parse_vibrate(args)
    } else if (text::same(name, "capture") || text::same(name, "watch-top") || text::same(
        name,
        "watch-controls",
    )) && 2 <= count && count <= (if text::same(name, "capture") {
        3usize
    } else {
        4usize
    }) {
        parse_timed_command(args)
    } else {
        Err(ArgError::Invalid)
    }
}

/// The name of the fixture command is no other command's.
proof fn names_differ()
    ensures
        "render-fixtures"@ != "app"@,
        "render-fixtures"@ != "demo"@,
        "render-fixtures"@ != "--help"@,
        "render-fixtures"@ != "-h"@,
        "render-fixtures"@ != "help"@,
        "render-fixtures"@ != "list"@,
        !is_slot_command("render-fixtures"@),
        "render-fixtures"@ != "vibrate"@,
        !is_timed_command("render-fixtures"@),
{
    reveal_strlit("render-fixtures");
    reveal_strlit("app");
    reveal_strlit("demo");
    reveal_strlit("--help");
    reveal_strlit("-h");
    reveal_strlit("help");
    reveal_strlit("list");
    reveal_strlit("probe");
    reveal_strlit("inspect");
    reveal_strlit("recover-top-default");
    reveal_strlit("recover-controls-default");
    reveal_strlit("vibrate");
    reveal_strlit("capture");
    reveal_strlit("watch-top");
    reveal_strlit("watch-controls");
    assert("render-fixtures"@.len() == 15);
    assert("app"@.len() == 3);
    assert("demo"@.len() == 4);
    assert("--help"@.len() == 6);
    assert("-h"@.len() == 2);
    assert("help"@.len() == 4);
    assert("list"@.len() == 4);
    assert("probe"@.len() == 5);
    assert("inspect"@.len() == 7);
    assert("recover-top-default"@.len() == 19);
    assert("recover-controls-default"@.len() == 24);
    assert("vibrate"@.len() == 7);
    assert("capture"@.len() == 7);
    assert("watch-top"@.len() == 9);
    assert("watch-controls"@.len() == 14);
}

/// The limits that keep a command from running unbounded or at a wrong slot.
pub open spec fn within_limits(command: Command) -> bool {
    match command {
        Command::Demo { seconds, .. } => 1 <= seconds <= 300,
        Command::Capture { seconds, .. } => 1 <= seconds <= 300,
        Command::WatchTop { seconds, index, .. } => 1 <= seconds <= 300 && 1 <= index <= 6,
        Command::WatchControls { seconds, index, .. } => 1 <= seconds <= 300 && 1 <= index <= 6,
        Command::Vibrate { length, index, .. } => length <= 10 && 1 <= index <= 6,
        Command::Probe { index, .. } => 1 <= index <= 6,
        Command::Inspect { index, .. } => 1 <= index <= 6,
        Command::RecoverTop { index, .. } => 1 <= index <= 6,
        Command::RecoverControls { index, .. } => 1 <= index <= 6,
        _ => true,
    }
}

/// Every accepted command line keeps the limits.
pub proof fn accepted_commands_keep_the_limits(args: Seq<Seq<char>>)
    ensures
        command_of(args) matches Ok(command) ==> within_limits(command),
{
}

/// The names of the commands differ.
proof fn commands_have_their_own_names()
    ensures
        "app"@.len() == 3,
        "demo"@.len() == 4 && "demo"@[0] == 'd',
        "help"@.len() == 4 && "help"@[0] == 'h',
        "list"@.len() == 4 && "list"@[0] == 'l',
        "--help"@.len() == 6,
        "-h"@.len() == 2,
        "probe"@.len() == 5,
        "inspect"@.len() == 7 && "inspect"@[0] == 'i',
        "vibrate"@.len() == 7 && "vibrate"@[0] == 'v',
        "capture"@.len() == 7 && "capture"@[0] == 'c',
        "recover-top-default"@.len() == 19,
        "recover-controls-default"@.len() == 24,
        "watch-top"@.len() == 9,
        "watch-controls"@.len() == 14,
        "render-fixtures"@.len() == 15,
        "spotlight"@.len() == 9,
        "laser"@.len() == 5,
{
    reveal_strlit("app");
    reveal_strlit("demo");
    reveal_strlit("help");
    reveal_strlit("list");
    reveal_strlit("--help");
    reveal_strlit("-h");
    reveal_strlit("probe");
    reveal_strlit("inspect");
    reveal_strlit("vibrate");
    reveal_strlit("capture");
    reveal_strlit("recover-top-default");
    reveal_strlit("recover-controls-default");
    reveal_strlit("watch-top");
    reveal_strlit("watch-controls");
    reveal_strlit("render-fixtures");
    reveal_strlit("spotlight");
    reveal_strlit("laser");
}

/// A value stands at a place of the line in decimal, or the line ends before the place
/// and the value is the default.
pub open spec fn given(args: Seq<Seq<char>>, place: int, value: nat, default: nat) -> bool {
    if place < args.len() {
        args[place] == text::decimal(value)
    } else {
        value == default
    }
}

proof fn given_numbers_are_read(
    args: Seq<Seq<char>>,
    place: int,
    value: nat,
    default: nat,
    max: nat,
)
    requires
        given(args, place, value, default),
        default <= max,
    ensures
        value <= max ==> number_arg(args, place, max, default) == Ok::<nat, ArgError>(value),
        value > max ==> number_arg(args, place, max, default) == Err::<nat, ArgError>(
            ArgError::Number(IntError::Overflow),
        ),
{
    if value <= max {
        text::decimal_reads_back(value, max);
    } else {
        text::large_decimals_overflow(value, max);
    }
}

/// A command for a receiver slot carries the interface and the slot that were written,
/// and slot 1 where none was. Other slots than 1 to 6 are refused.
pub proof fn slot_commands_carry_their_numbers(args: Seq<Seq<char>>, device: nat, index: nat)
    requires
        2 <= args.len() <= 3,
        args[1] == text::decimal(device),
        device <= usize::MAX,
        given(args, 2, index, 1),
    ensures
        args[0] == "probe"@ && 1 <= index <= 6 ==> command_of(args) == Ok::<Command, ArgError>(
            Command::Probe { device: device as usize, index: index as u8 },
        ),
        args[0] == "inspect"@ && 1 <= index <= 6 ==> command_of(args) == Ok::<Command, ArgError>(
            Command::Inspect { device: device as usize, index: index as u8 },
        ),
        args[0] == "recover-top-default"@ && 1 <= index <= 6 ==> command_of(args) == Ok::<Command, ArgError>(
            Command::RecoverTop { device: device as usize, index: index as u8 },
        ),
        args[0] == "recover-controls-default"@ && 1 <= index <= 6 ==> command_of(args) == Ok::<Command, ArgError>(
            Command::RecoverControls { device: device as usize, index: index as u8 },
        ),
        (args[0] == "probe"@ || args[0] == "inspect"@ || args[0] == "recover-top-default"@ || args[0] == "recover-controls-default"@) && !(1 <= index <= 6) && index <= 255 ==> command_of(args) == Err::<
            Command,
            ArgError,
        >(ArgError::Index),
{
    commands_have_their_own_names();
    given_numbers_are_read(args, 1, device, 0, usize::MAX as nat);
    given_numbers_are_read(args, 2, index, 1, u8::MAX as nat);
}

/// A command that observes for some time carries the interface, the seconds and the slot
/// that were written. Where none were, a capture takes 15 seconds, the top button is
/// watched for 30 and the controls for 60, at slot 1.
pub proof fn timed_commands_carry_their_numbers(
    args: Seq<Seq<char>>,
    device: nat,
    seconds: nat,
    index: nat,
)
    requires
        2 <= args.len(),
        args[1] == text::decimal(device),
        device <= usize::MAX,
        seconds <= u64::MAX,
        index <= 255,
    ensures
        args[0] == "capture"@ && args.len() <= 3 && given(args, 2, seconds, 15) ==> command_of(args)
            == if 1 <= seconds <= 300 {
            Ok::<Command, ArgError>(
                Command::Capture { device: device as usize, seconds: seconds as u64 },
            )
        } else {
            Err(ArgError::Seconds)
        },
        args[0] == "watch-top"@ && args.len() <= 4 && given(args, 2, seconds, 30) && given(
            args,
            3,
            index,
            1,
        ) ==> command_of(args) == if !(1 <= seconds <= 300) {
            Err(ArgError::Seconds)
        } else if 1 <= index <= 6 {
            Ok::<Command, ArgError>(
                Command::WatchTop {
                    device: device as usize,
                    seconds: seconds as u64,
                    index: index as u8,
                },
            )
        } else {
            Err(ArgError::Index)
        },
        args[0] == "watch-controls"@ && args.len() <= 4 && given(args, 2, seconds, 60) && given(
            args,
            3,
            index,
            1,
        ) ==> command_of(args) == if !(1 <= seconds <= 300) {
            Err(ArgError::Seconds)
        } else if 1 <= index <= 6 {
            Ok::<Command, ArgError>(
                Command::WatchControls {
                    device: device as usize,
                    seconds: seconds as u64,
                    index: index as u8,
                },
            )
        } else {
            Err(ArgError::Index)
        },
{
    commands_have_their_own_names();
    given_numbers_are_read(args, 1, device, 0, usize::MAX as nat);
    if given(args, 2, seconds, 15) {
        given_numbers_are_read(args, 2, seconds, 15, u64::MAX as nat);
    }
    if given(args, 2, seconds, 30) {
        given_numbers_are_read(args, 2, seconds, 30, u64::MAX as nat);
    }
    if given(args, 2, seconds, 60) {
        given_numbers_are_read(args, 2, seconds, 60, u64::MAX as nat);
    }
    if given(args, 3, index, 1) {
        given_numbers_are_read(args, 3, index, 1, u8::MAX as nat);
    }
}

/// A vibration carries the interface, the intensity, the length and the slot that were
/// written; 128, 0 and 1 where none were.
pub proof fn vibrations_carry_their_numbers(
    args: Seq<Seq<char>>,
    device: nat,
    intensity: nat,
    length: nat,
    index: nat,
)
    requires
        2 <= args.len() <= 5,
        args[0] == "vibrate"@,
        args[1] == text::decimal(device),
        device <= usize::MAX,
        given(args, 2, intensity, 128),
        given(args, 3, length, 0),
        given(args, 4, index, 1),
        intensity <= 255,
        length <= 255,
        index <= 255,
    ensures
        command_of(args) == if length > 10 {
            Err(ArgError::Length)
        } else if 1 <= index <= 6 {
            Ok::<Command, ArgError>(
                Command::Vibrate {
                    device: device as usize,
                    intensity: intensity as u8,
                    length: length as u8,
                    index: index as u8,
                },
            )
        } else {
            Err(ArgError::Index)
        },
{
    commands_have_their_own_names();
    given_numbers_are_read(args, 1, device, 0, usize::MAX as nat);
    given_numbers_are_read(args, 2, intensity, 128, u8::MAX as nat);
    given_numbers_are_read(args, 3, length, 0, u8::MAX as nat);
    given_numbers_are_read(args, 4, index, 1, u8::MAX as nat);
}

/// A demonstration shows the effect that was named, the spotlight where none was, for
/// the seconds that were written, 15 where none were. Other effects are refused.
pub proof fn demonstrations_carry_their_effect_and_seconds(args: Seq<Seq<char>>, seconds: nat)
    requires
        1 <= args.len() <= 3,
        args[0] == "demo"@,
        given(args, 2, seconds, 15),
        seconds <= u64::MAX,
    ensures
        (args.len() == 1 || args[1] == "spotlight"@) && 1 <= seconds <= 300 ==> command_of(args)
            == Ok::<Command, ArgError>(
            Command::Demo { effect: Effect::Spotlight, seconds: seconds as u64 },
        ),
        args.len() > 1 && args[1] == "laser"@ && 1 <= seconds <= 300 ==> command_of(args) == Ok::<
            Command,
            ArgError,
        >(Command::Demo { effect: Effect::Laser, seconds: seconds as u64 }),
        args.len() > 1 && args[1] != "spotlight"@ && args[1] != "laser"@ ==> command_of(args)
            == Err::<Command, ArgError>(ArgError::DemoEffect),
        (args.len() == 1 || args[1] == "spotlight"@ || args[1] == "laser"@) && !(1 <= seconds
            <= 300) ==> command_of(args) == Err::<Command, ArgError>(ArgError::Seconds),
{
    commands_have_their_own_names();
    given_numbers_are_read(args, 2, seconds, 15, u64::MAX as nat);
}

/// Whatever is accepted carries what was written: the command is the one that was named,
/// with no more words than it takes, and each number is the one at its place.
pub proof fn accepted_commands_carry_what_was_written(args: Seq<Seq<char>>)
    ensures
        command_of(args) matches Ok(command) ==> match command {
            Command::App => args.len() == 0 || (args.len() == 1 && args[0] == "app"@),
            Command::Help => args.len() == 1 && (args[0] == "help"@ || args[0] == "--help"@
                || args[0] == "-h"@),
            Command::List => args.len() == 1 && args[0] == "list"@,
            Command::RenderQa { .. } => false,
            Command::Demo { effect, seconds } => {
                &&& args[0] == "demo"@ && 1 <= args.len() <= 3
                &&& effect == Effect::Laser <==> args.len() > 1 && args[1] == "laser"@
                &&& effect == Effect::Laser || effect == Effect::Spotlight
                &&& written(args, 2, seconds as nat, 15)
            },
            Command::Probe { device, index } => args[0] == "probe"@ && 2 <= args.len() <= 3
                && written(args, 1, device as nat, 0) && written(args, 2, index as nat, 1),
            Command::Inspect { device, index } => args[0] == "inspect"@ && 2 <= args.len() <= 3
                && written(args, 1, device as nat, 0) && written(args, 2, index as nat, 1),
            Command::RecoverTop { device, index } => args[0] == "recover-top-default"@ && 2
                <= args.len() <= 3 && written(args, 1, device as nat, 0) && written(
                args,
                2,
                index as nat,
                1,
            ),
            Command::RecoverControls { device, index } => args[0] == "recover-controls-default"@
                && 2 <= args.len() <= 3 && written(args, 1, device as nat, 0) && written(
                args,
                2,
                index as nat,
                1,
            ),
            Command::Capture { device, seconds } => args[0] == "capture"@ && 2 <= args.len() <= 3
                && written(args, 1, device as nat, 0) && written(args, 2, seconds as nat, 15),
            Command::WatchTop { device, seconds, index } => args[0] == "watch-top"@ && 2
                <= args.len() <= 4 && written(args, 1, device as nat, 0) && written(
                args,
                2,
                seconds as nat,
                30,
            ) && written(args, 3, index as nat, 1),
            Command::WatchControls { device, seconds, index } => args[0] == "watch-controls"@
                && 2 <= args.len() <= 4 && written(args, 1, device as nat, 0) && written(
                args,
                2,
                seconds as nat,
                60,
            ) && written(args, 3, index as nat, 1),
            Command::Vibrate { device, intensity, length, index } => args[0] == "vibrate"@ && 2
                <= args.len() <= 5 && written(args, 1, device as nat, 0) && written(
                args,
                2,
                intensity as nat,
                128,
            ) && written(args, 3, length as nat, 0) && written(args, 4, index as nat, 1),
        },
{
    commands_have_their_own_names();
    if args.len() > 1 {
        text::numbers_keep_the_limit(args[1], 10, usize::MAX as nat);
    }
    if args.len() > 2 {
        numbers_do_not_depend_on_the_limit(args[2], u8::MAX as nat);
        numbers_do_not_depend_on_the_limit(args[2], u64::MAX as nat);
    }
    if args.len() > 3 {
        numbers_do_not_depend_on_the_limit(args[3], u8::MAX as nat);
    }
    if args.len() > 4 {
        numbers_do_not_depend_on_the_limit(args[4], u8::MAX as nat);
    }
    numbers_do_not_depend_on_the_limit(args[1], usize::MAX as nat);
}

/// The number at a place of the line, or the default where the line ends before it.
pub open spec fn written(args: Seq<Seq<char>>, place: int, value: nat, default: nat) -> bool {
    if place < args.len() {
        text::int_value(args[place], 10, u64::MAX as nat) == Ok::<nat, IntError>(value)
    } else {
        value == default
    }
}

/// A number that is read under a limit is the same under a higher one.
proof fn numbers_do_not_depend_on_the_limit(s: Seq<char>, max: nat)
    requires
        max <= u64::MAX,
    ensures
        text::int_value(s, 10, max) matches Ok(value) ==> text::int_value(s, 10, u64::MAX as nat)
            == Ok::<nat, IntError>(value) && value <= max,
{
    if s.len() > 0 {
        digits_do_not_depend_on_the_limit(s, max);
        digits_do_not_depend_on_the_limit(s.skip(1), max);
    }
}

proof fn digits_do_not_depend_on_the_limit(s: Seq<char>, max: nat)
    requires
        max <= u64::MAX,
    ensures
        text::digits_value(s, 10, max) matches Ok(value) ==> text::digits_value(
            s,
            10,
            u64::MAX as nat,
        ) == Ok::<nat, IntError>(value) && value <= max,
    decreases s.len(),
{
    if s.len() > 0 {
        digits_do_not_depend_on_the_limit(s.drop_last(), max);
    }
}

/// Lines that name no command, or that hold more words than the command takes, are
/// refused as invalid.
pub proof fn other_lines_are_refused(args: Seq<Seq<char>>)
    requires
        args.len() > 0,
    ensures
        args.len() > 5 ==> command_of(args) == Err::<Command, ArgError>(ArgError::Invalid),
        args.len() > 1 && (args[0] == "app"@ || args[0] == "list"@ || args[0] == "help"@ || args[0]
            == "--help"@ || args[0] == "-h"@) ==> command_of(args) == Err::<Command, ArgError>(
            ArgError::Invalid,
        ),
        args.len() > 3 && (args[0] == "demo"@ || args[0] == "probe"@ || args[0] == "inspect"@
            || args[0] == "recover-top-default"@ || args[0] == "recover-controls-default"@
            || args[0] == "capture"@) ==> command_of(args) == Err::<Command, ArgError>(
            ArgError::Invalid,
        ),
        args.len() > 4 && (args[0] == "watch-top"@ || args[0] == "watch-controls"@) ==> command_of(
            args,
        ) == Err::<Command, ArgError>(ArgError::Invalid),
        args[0] != "app"@ && args[0] != "list"@ && args[0] != "help"@ && args[0] != "--help"@
            && args[0] != "-h"@ && args[0] != "demo"@ && args[0] != "probe"@ && args[0]
            != "inspect"@ && args[0] != "recover-top-default"@ && args[0]
            != "recover-controls-default"@ && args[0] != "capture"@ && args[0] != "watch-top"@
            && args[0] != "watch-controls"@ && args[0] != "vibrate"@ ==> command_of(args) == Err::<
            Command,
            ArgError,
        >(ArgError::Invalid),
        args.len() == 1 && args[0] != "app"@ && args[0] != "list"@ && args[0] != "help"@ && args[0]
            != "--help"@ && args[0] != "-h"@ && args[0] != "demo"@ ==> command_of(args) == Err::<
            Command,
            ArgError,
        >(ArgError::Invalid),
        args.len() == 1 && (args[0] == "help"@ || args[0] == "--help"@ || args[0] == "-h"@)
            ==> command_of(args) == Ok::<Command, ArgError>(Command::Help),
        args.len() == 1 && args[0] == "list"@ ==> command_of(args) == Ok::<Command, ArgError>(
            Command::List,
        ),
        args.len() == 1 && args[0] == "app"@ ==> command_of(args) == Ok::<Command, ArgError>(
            Command::App,
        ),
{
    commands_have_their_own_names();
}

/// Fixtures are rendered where exactly the command and a directory are given.
pub proof fn fixtures_take_one_directory(args: Seq<Seq<char>>)
    ensures
        renders_fixtures(args) <==> args.len() == 2 && args[0] == "render-fixtures"@,
{
}

/// A text that is no number is refused as such, wherever a number belongs.
pub proof fn numbers_are_numbers(args: Seq<Seq<char>>, error: IntError)
    requires
        2 <= args.len() <= 3,
        text::int_value(args[1], 10, usize::MAX as nat) == Err::<nat, IntError>(error),
    ensures
        args[0] == "probe"@ || args[0] == "inspect"@ || args[0] == "recover-top-default"@
            || args[0] == "recover-controls-default"@ || args[0] == "capture"@ || args[0]
            == "watch-top"@ || args[0] == "watch-controls"@ || args[0] == "vibrate"@
            ==> command_of(args) == Err::<Command, ArgError>(ArgError::Number(error)),
{
    commands_have_their_own_names();
}

impl Command {
    /// The interface number that a command names.
    pub open spec fn interface(self) -> Option<usize> {
        match self {
            Command::Probe { device, .. } => Some(device),
            Command::Inspect { device, .. } => Some(device),
            Command::RecoverTop { device, .. } => Some(device),
            Command::RecoverControls { device, .. } => Some(device),
            Command::Capture { device, .. } => Some(device),
            Command::WatchTop { device, .. } => Some(device),
            Command::WatchControls { device, .. } => Some(device),
            Command::Vibrate { device, .. } => Some(device),
            _ => None,
        }
    }

    /// The interface that the command works on. It reads reports, so that input has
    /// to be available.
    pub fn device(&self) -> (device: Option<usize>)
        ensures
            device == self.interface(),
    {
        match self {
            Command::Probe { device, .. } => Some(*device),
            Command::Inspect { device, .. } => Some(*device),
            Command::RecoverTop { device, .. } => Some(*device),
            Command::RecoverControls { device, .. } => Some(*device),
            Command::Capture { device, .. } => Some(*device),
            Command::WatchTop { device, .. } => Some(*device),
            Command::WatchControls { device, .. } => Some(*device),
            Command::Vibrate { device, .. } => Some(*device),
            _ => None,
        }
    }

    /// Whether the command sends HID++ requests and so needs a vendor-defined
    /// interface.
    pub fn sends_requests(&self) -> (sends: bool)
        ensures
            sends == (self.interface() is Some && !(self is Capture)),
    {
        match self {
            Command::Capture { .. } => false,
            _ => self.device().is_some(),
        }
    }
}

/// Usage pages from here on are vendor-defined.
pub const VENDOR_PAGE: u16 = 0xff00;

/// Why no interface was opened for a command.
#[derive(Debug, Clone, Copy, PartialEq, Eq, Structural)]
pub enum InterfaceError {
    Missing,
    NotVendorDefined,
}

impl InterfaceError {
    pub open spec fn spec_message(self) -> Seq<char> {
        match self {
            InterfaceError::Missing =>
            "No such Spotlight interface. Connect the device and run list again."@,
            InterfaceError::NotVendorDefined =>
            "probe/inspect/watch-top/watch-controls/vibrate requires a vendor-defined HID interface; choose its DEVICE number from list"@,
        }
    }

    pub fn message(self) -> (message: &'static str)
        ensures
            message@ == self.spec_message(),
    {
        match self {
            InterfaceError::Missing =>
            "No such Spotlight interface. Connect the device and run list again.",
            InterfaceError::NotVendorDefined =>
            "probe/inspect/watch-top/watch-controls/vibrate requires a vendor-defined HID interface; choose its DEVICE number from list",
        }
    }
}

/// Which interface a command may open: the one that it names. All but a capture need a
/// vendor-defined one.
pub open spec fn interface_for(command: Command, number: usize, usage_pages: Seq<u16>) -> Result<
    usize,
    InterfaceError,
> {
    if number >= usage_pages.len() {
        Err(InterfaceError::Missing)
    } else if !(command is Capture) && usage_pages[number as int] < VENDOR_PAGE {
        Err(InterfaceError::NotVendorDefined)
    } else {
        Ok(number)
    }
}

/// A command never opens another interface than the one it names, a capture opens any
/// that is listed, and every other command one whose page is from ff00 on, and no other.
pub proof fn commands_open_the_interface_they_name(
    command: Command,
    number: usize,
    usage_pages: Seq<u16>,
)
    ensures
        interface_for(command, number, usage_pages) matches Ok(opened) ==> opened == number
            && number < usage_pages.len(),
        number >= usage_pages.len() ==> interface_for(command, number, usage_pages) == Err::<
            usize,
            InterfaceError,
        >(InterfaceError::Missing),
        number < usage_pages.len() ==> (interface_for(command, number, usage_pages) == Ok::<
            usize,
            InterfaceError,
        >(number) <==> (usage_pages[number as int] >= 0xff00 || command is Capture)),
        command.interface() is Some <==> !(command is App || command is RenderQa || command is Demo
            || command is Help || command is List),
        command matches Command::Probe { device, .. } ==> command.interface() == Some(device),
        command matches Command::Inspect { device, .. } ==> command.interface() == Some(device),
        command matches Command::RecoverTop { device, .. } ==> command.interface() == Some(device),
        command matches Command::RecoverControls { device, .. } ==> command.interface() == Some(
            device,
        ),
        command matches Command::Capture { device, .. } ==> command.interface() == Some(device),
        command matches Command::WatchTop { device, .. } ==> command.interface() == Some(device),
        command matches Command::WatchControls { device, .. } ==> command.interface() == Some(
            device,
        ),
        command matches Command::Vibrate { device, .. } ==> command.interface() == Some(device),
{
}

/// The interface that a command may open, given the usage pages of those listed.
pub fn choose_interface(command: &Command, number: usize, usage_pages: &[u16]) -> (chosen: Result<
    usize,
    InterfaceError,
>)
    requires
        command.interface() == Some(number),
    ensures
        chosen == (if number >= usage_pages@.len() {
            Err(InterfaceError::Missing)
        } else if !(command is Capture) && usage_pages@[number as int] < VENDOR_PAGE {
            Err(InterfaceError::NotVendorDefined)
        } else {
            Ok(number)
        }),
        chosen == interface_for(*command, number, usage_pages@),
{
    if number >= usage_pages.len() {
        Err(InterfaceError::Missing)
    } else if command.sends_requests() && usage_pages[number] < VENDOR_PAGE {
        Err(InterfaceError::NotVendorDefined)
    } else {
        Ok(number)
    }
}

} // verus!
