//! The monitor's configuration: serial settings, the commands it polls
//! with, the plots their answers feed, and the product parameters.

use vstd::prelude::*;
use crate::table::TextMap;

verus! {

/// Parity of the serial line.
#[derive(Clone, Copy, Debug, PartialEq, Eq, Structural)]
pub enum ConfigParity {
    NoParity,
    Odd,
    Even,
}

/// Number of stop bits.
#[derive(Clone, Copy, Debug, PartialEq, Eq, Structural)]
pub enum ConfigStopBits {
    One,
    Two,
}

/// Number of data bits per character.
#[derive(Clone, Copy, Debug, PartialEq, Eq, Structural)]
pub enum ConfigDataBits {
    Five,
    Six,
    Seven,
    Eight,
}

/// Flow control of the serial line.
#[derive(Clone, Copy, Debug, PartialEq, Eq, Structural)]
pub enum ConfigFlowControl {
    NoFlowControl,
    Software,
    Hardware,
}

/// All settings of the serial port, and how often the device is polled.
#[derive(Clone, Copy, Debug, PartialEq, Eq, Structural)]
pub struct SerialConfig {
    pub baud_rate: u32,
    pub parity: ConfigParity,
    pub data_bits: ConfigDataBits,
    pub stop_bits: ConfigStopBits,
    pub flow_control: ConfigFlowControl,
    pub polling_interval_ms: u64,
}

impl ConfigParity {
    /// The name this setting has in a configuration file.
    pub fn config_name(&self) -> (r: &'static str)
        ensures
            r@ == match *self {
                ConfigParity::NoParity => "None"@,
                ConfigParity::Odd => "Odd"@,
                ConfigParity::Even => "Even"@,
            },
    {
        match self {
            ConfigParity::NoParity => "None",
            ConfigParity::Odd => "Odd",
            ConfigParity::Even => "Even",
        }
    }
}

impl ConfigStopBits {
    /// The name this setting has in a configuration file.
    pub fn config_name(&self) -> (r: &'static str)
        ensures
            r@ == match *self {
                ConfigStopBits::One => "One"@,
                ConfigStopBits::Two => "Two"@,
            },
    {
        match self {
            ConfigStopBits::One => "One",
            ConfigStopBits::Two => "Two",
        }
    }
}

impl ConfigDataBits {
    /// The name this setting has in a configuration file.
    pub fn config_name(&self) -> (r: &'static str)
        ensures
            r@ == match *self {
                ConfigDataBits::Five => "Five"@,
                ConfigDataBits::Six => "Six"@,
                ConfigDataBits::Seven => "Seven"@,
                ConfigDataBits::Eight => "Eight"@,
            },
    {
        match self {
            ConfigDataBits::Five => "Five",
            ConfigDataBits::Six => "Six",
            ConfigDataBits::Seven => "Seven",
            ConfigDataBits::Eight => "Eight",
        }
    }
}

impl ConfigFlowControl {
    /// The name this setting has in a configuration file.
    pub fn config_name(&self) -> (r: &'static str)
        ensures
            r@ == match *self {
                ConfigFlowControl::NoFlowControl => "None"@,
                ConfigFlowControl::Software => "Software"@,
                ConfigFlowControl::Hardware => "Hardware"@,
            },
    {
        match self {
            ConfigFlowControl::NoFlowControl => "None",
            ConfigFlowControl::Software => "Software",
            ConfigFlowControl::Hardware => "Hardware",
        }
    }
}

/// A plot fed by the lines that carry `data_key`: the text after the key
/// is the reading.
#[derive(Debug)]
pub struct PlotConfig {
    pub name: String,
    pub data_key: String,
}

/// A command sent to the device at each poll, with the plots its answers feed.
#[derive(Debug)]
pub struct CommandConfig {
    pub command: String,
    pub plots: Vec<PlotConfig>,
}

/// A whole configuration file.
pub struct AppConfig {
    pub product_type: String,
    pub serial: SerialConfig,
    pub commands: Vec<CommandConfig>,
    pub product_parameters: TextMap,
}

/// The plots of all commands, command by command, in order.
pub open spec fn all_plots(commands: Seq<CommandConfig>) -> Seq<PlotConfig>
    decreases commands.len(),
{
    if commands.len() == 0 {
        Seq::empty()
    } else {
        all_plots(commands.drop_last()) + commands.last().plots@
    }
}

impl Clone for PlotConfig {
    fn clone(&self) -> (r: Self)
        ensures
            r == *self,
    {
        PlotConfig { name: self.name.clone(), data_key: self.data_key.clone() }
    }
}

/// Copies of the given plot configurations.
pub fn clone_plots(plots: &Vec<PlotConfig>) -> (r: Vec<PlotConfig>)
    ensures
        r@ == plots@,
{
    let mut r: Vec<PlotConfig> = Vec::new();
    let n = plots.len();
    let mut i: usize = 0;
    while i < n
        invariant
            i <= n == plots@.len(),
            r@ == plots@.take(i as int),
        decreases n - i,
    {
        r.push(plots[i].clone());
        assert(r@ =~= plots@.take(i + 1));
        i = i + 1;
    }
    assert(plots@.take(n as int) =~= plots@);
    r
}

impl CommandConfig {
    /// A copy of this command configuration.
    pub fn duplicate(&self) -> (r: Self)
        ensures
            r.command@ == self.command@,
            r.plots@ == self.plots@,
    {
        CommandConfig { command: self.command.clone(), plots: clone_plots(&self.plots) }
    }
}

/// Copies of the given command configurations.
pub fn clone_commands(commands: &Vec<CommandConfig>) -> (r: Vec<CommandConfig>)
    ensures
        r@.len() == commands@.len(),
        forall|i: int|
            0 <= i < r@.len() ==> (#[trigger] r@[i]).command@ == commands@[i].command@
                && r@[i].plots@ == commands@[i].plots@,
        all_plots(r@) == all_plots(commands@),
{
    let mut r: Vec<CommandConfig> = Vec::new();
    let n = commands.len();
    let mut i: usize = 0;
    while i < n
        invariant
            i <= n == commands@.len(),
            r@.len() == i,
            forall|j: int|
                0 <= j < i ==> (#[trigger] r@[j]).command@ == commands@[j].command@
                    && r@[j].plots@ == commands@[j].plots@,
            all_plots(r@) == all_plots(commands@.take(i as int)),
        decreases n - i,
    {
        let ghost r0 = r@;
        r.push(commands[i].duplicate());
        assert(r@.drop_last() =~= r0);
        assert(commands@.take(i + 1).drop_last() =~= commands@.take(i as int));
        i = i + 1;
    }
    assert(commands@.take(n as int) =~= commands@);
    r
}

/// The plots of all commands, command by command, in order.
pub fn plot_configs(commands: &Vec<CommandConfig>) -> (r: Vec<PlotConfig>)
    ensures
        r@ == all_plots(commands@),
{
    let mut r: Vec<PlotConfig> = Vec::new();
    let n = commands.len();
    let mut c: usize = 0;
    while c < n
        invariant
            c <= n == commands@.len(),
            r@ == all_plots(commands@.take(c as int)),
        decreases n - c,
    {
        let plots = &commands[c].plots;
        let m = plots.len();
        let mut p: usize = 0;
        while p < m
            invariant
                c < n == commands@.len(),
                p <= m == plots@.len(),
                plots@ == commands@[c as int].plots@,
                r@ == all_plots(commands@.take(c as int)) + plots@.take(p as int),
            decreases m - p,
        {
            r.push(plots[p].clone());
            assert(r@ =~= all_plots(commands@.take(c as int)) + plots@.take(p + 1));
            p = p + 1;
        }
        assert(commands@.take(c + 1).drop_last() =~= commands@.take(c as int));
        assert(plots@.take(m as int) =~= plots@);
        c = c + 1;
    }
    assert(commands@.take(n as int) =~= commands@);
    r
}

/// Why a configuration could not be loaded, with the reader's or parser's
/// own description.
#[derive(Debug)]
pub enum ConfigLoadError {
    FileRead(String),
    JsonParse(String),
}

/// The text shown for a load error.
pub open spec fn load_error_text(e: ConfigLoadError) -> Seq<char> {
    match e {
        ConfigLoadError::FileRead(d) => "File Read Error: "@ + d@,
        ConfigLoadError::JsonParse(d) => "JSON Parse Error: "@ + d@,
    }
}

impl ConfigLoadError {
    /// The text shown for this error.
    pub fn message(&self) -> (r: String)
        ensures
            r@ == load_error_text(*self),
    {
        match self {
            ConfigLoadError::FileRead(d) => {
                let mut r = "File Read Error: ".to_owned();
                r.append(d.as_str());
                r
            },
            ConfigLoadError::JsonParse(d) => {
                let mut r = "JSON Parse Error: ".to_owned();
                r.append(d.as_str());
                r
            },
        }
    }
}

} // verus!
