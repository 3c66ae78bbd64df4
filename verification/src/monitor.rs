//! The monitor's display state: the loaded configuration, a history per
//! plot, the latest text value per text-valued plot, the serial log, the
//! editable product parameters and the connection controls.

use vstd::prelude::*;
use crate::bounded::{BoundedLog, pushed, room};
use crate::config::{
    AppConfig, CommandConfig, ConfigLoadError, PlotConfig, SerialConfig, all_plots,
    clone_commands, load_error_text, plot_configs,
};
use crate::table::TextMap;
use crate::text::{split_once, split_once_at, trim, trimmed};

verus! {

/// How many points each plot keeps.
pub const MAX_PLOT_POINTS: usize = 500;

/// How many received lines the serial log keeps.
pub const LOG_CAPACITY: usize = 100;

/// A plot and the points it has received, oldest first.
pub struct PlotState<P> {
    pub config: PlotConfig,
    pub data: BoundedLog<P>,
}

/// One record received from the worker: the plot it names (empty for a
/// line that feeds no plot), its point when the reading was numeric, and
/// the received line.
pub struct PlotData<P> {
    pub plot_name: String,
    pub point: Option<P>,
    pub raw_line: String,
}

/// What a worker needs to start: the port, its settings, the commands to
/// poll with and the current product parameters.
pub struct ConnectPlan {
    pub port_name: String,
    pub serial: SerialConfig,
    pub commands: Vec<CommandConfig>,
    pub params: TextMap,
}

/// What the configuration panel says about the configuration: the load
/// error, the loaded product's type, or that no configuration is loaded yet.
pub enum ConfigStatus {
    Failed(String),
    Loaded(String),
    Awaiting,
}

/// The display state of the monitor.
pub struct SerialPlotterApp<P> {
    pub selected_port_name: String,
    pub is_connected: bool,
    pub config_file_path: String,
    pub loaded_config: Option<AppConfig>,
    pub config_load_error: Option<String>,
    pub plot_states: Vec<PlotState<P>>,
    pub state_values: TextMap,
    pub log_history: BoundedLog<String>,
    pub editable_params: TextMap,
    pub command_input: String,
}

/// First plot at or after `i` whose name is `name`.
pub open spec fn first_named_from<P>(states: Seq<PlotState<P>>, name: Seq<char>, i: int) -> Option<
    int,
>
    decreases states.len() - i,
{
    if i < 0 || i >= states.len() {
        None
    } else if states[i].config.name@ == name {
        Some(i)
    } else {
        first_named_from(states, name, i + 1)
    }
}

/// First plot whose name is `name`.
pub open spec fn first_named<P>(states: Seq<PlotState<P>>, name: Seq<char>) -> Option<int> {
    first_named_from(states, name, 0)
}

/// The text values after a text reading for plot `name` in line `raw`: the
/// first plot of that name, if its key occurs in the line, now shows the
/// trimmed text after the key.
pub open spec fn text_state_after<P>(
    values: Map<Seq<char>, Seq<char>>,
    states: Seq<PlotState<P>>,
    name: Seq<char>,
    raw: Seq<char>,
) -> Map<Seq<char>, Seq<char>> {
    match first_named(states, name) {
        Some(i) => match split_once_at(raw, states[i].config.data_key@) {
            Some(parts) => values.insert(name, trimmed(parts.1)),
            None => values,
        },
        None => values,
    }
}

/// Indices, below `n` and in order, of the plots drawn as graphs: those
/// with no text value.
pub open spec fn drawn_below<P>(
    states: Seq<PlotState<P>>,
    values: Map<Seq<char>, Seq<char>>,
    n: int,
) -> Seq<int>
    decreases n,
{
    if n <= 0 {
        Seq::empty()
    } else {
        let prev = drawn_below(states, values, n - 1);
        if values.dom().contains(states[n - 1].config.name@) {
            prev
        } else {
            prev.push(n - 1)
        }
    }
}

/// What `first_named_from` returns: the first plot of that name at or
/// after `i`.
pub proof fn lemma_first_named_from<P>(states: Seq<PlotState<P>>, name: Seq<char>, i: int)
    requires
        0 <= i,
    ensures
        match first_named_from(states, name, i) {
            Some(j) => {
                &&& i <= j < states.len()
                &&& states[j].config.name@ == name
                &&& forall|m: int| i <= m < j ==> states[m].config.name@ != name
            },
            None => forall|m: int| i <= m < states.len() ==> states[m].config.name@ != name,
        },
    decreases states.len() - i,
{
    if i < states.len() && states[i].config.name@ != name {
        lemma_first_named_from(states, name, i + 1);
    }
}

impl<P> SerialPlotterApp<P> {
    /// The histories keep their configured sizes, and hold no more.
    pub open spec fn wf(&self) -> bool {
        &&& self.log_history.capacity() == LOG_CAPACITY
        &&& self.log_history@.len() <= LOG_CAPACITY
        &&& forall|i: int|
            0 <= i < self.plot_states@.len() ==> (#[trigger] self.plot_states@[i]).data.capacity()
                == MAX_PLOT_POINTS && self.plot_states@[i].data@.len() <= MAX_PLOT_POINTS
    }

    /// A monitor with nothing loaded, the first of the given ports selected.
    pub fn new(port_names: &Vec<String>) -> (r: Self)
        ensures
            r.wf(),
            port_names@.len() > 0 ==> r.selected_port_name@ == port_names@[0]@,
            port_names@.len() == 0 ==> r.selected_port_name@ == Seq::<char>::empty(),
            !r.is_connected,
            r.config_file_path@ == "config.json"@,
            r.loaded_config is None,
            r.config_load_error is None,
            r.plot_states@.len() == 0,
            r.state_values@ == Map::<Seq<char>, Seq<char>>::empty(),
            r.log_history@.len() == 0,
            r.editable_params@ == Map::<Seq<char>, Seq<char>>::empty(),
            r.command_input@ == Seq::<char>::empty(),
    {
        let selected_port_name = if port_names.len() > 0 {
            port_names[0].clone()
        } else {
            String::new()
        };
        SerialPlotterApp {
            selected_port_name,
            is_connected: false,
            config_file_path: "config.json".to_owned(),
            loaded_config: None,
            config_load_error: None,
            plot_states: Vec::new(),
            state_values: TextMap::new(),
            log_history: BoundedLog::new(LOG_CAPACITY),
            editable_params: TextMap::new(),
            command_input: String::new(),
        }
    }

    /// Empty histories for the given plots, in order.
    fn fresh_plot_states(plots: &Vec<PlotConfig>) -> (r: Vec<PlotState<P>>)
        ensures
            r@.len() == plots@.len(),
            forall|i: int|
                0 <= i < r@.len() ==> (#[trigger] r@[i]).config == plots@[i] && r@[i].data@.len()
                    == 0 && r@[i].data.capacity() == MAX_PLOT_POINTS,
    {
        let mut r: Vec<PlotState<P>> = Vec::new();
        let n = plots.len();
        let mut i: usize = 0;
        while i < n
            invariant
                i <= n == plots@.len(),
                r@.len() == i,
                forall|j: int|
                    0 <= j < i ==> (#[trigger] r@[j]).config == plots@[j] && r@[j].data@.len() == 0
                        && r@[j].data.capacity() == MAX_PLOT_POINTS,
            decreases n - i,
        {
            r.push(PlotState { config: plots[i].clone(), data: BoundedLog::new(MAX_PLOT_POINTS) });
            i = i + 1;
        }
        r
    }

    /// Takes in the outcome of reading and parsing the configuration file.
    /// On success the plots are those of all commands, in order, with empty
    /// histories, and the editable parameters are the product's; on failure
    /// the error is kept for display.
    pub fn load_config(&mut self, outcome: Result<AppConfig, ConfigLoadError>)
        ensures
            old(self).wf() ==> final(self).wf(),
            final(self).state_values@ == Map::<Seq<char>, Seq<char>>::empty(),
            final(self).selected_port_name == old(self).selected_port_name,
            final(self).is_connected == old(self).is_connected,
            final(self).config_file_path == old(self).config_file_path,
            final(self).log_history == old(self).log_history,
            final(self).command_input == old(self).command_input,
            match outcome {
                Ok(config) => {
                    &&& final(self).config_load_error is None
                    &&& final(self).loaded_config == Some(config)
                    &&& final(self).plot_states@.len() == all_plots(config.commands@).len()
                    &&& forall|i: int|
                        0 <= i < final(self).plot_states@.len() ==> (#[trigger] final(self).plot_states@[i]).config == all_plots(config.commands@)[i] && final(self).plot_states@[i].data@.len() == 0
                    &&& final(self).editable_params@ == config.product_parameters@
                },
                Err(e) => {
                    &&& final(self).config_load_error matches Some(m) && m@ == load_error_text(e)
                    &&& final(self).loaded_config is None
                    &&& final(self).plot_states@.len() == 0
                    &&& final(self).editable_params == old(self).editable_params
                },
            },
    {
        self.config_load_error = None;
        self.loaded_config = None;
        self.plot_states = Vec::new();
        self.state_values = TextMap::new();
        match outcome {
            Ok(config) => {
                let plots = plot_configs(&config.commands);
                self.plot_states = Self::fresh_plot_states(&plots);
                self.editable_params = config.product_parameters.clone();
                self.loaded_config = Some(config);
            },
            Err(e) => {
                self.config_load_error = Some(e.message());
            },
        }
    }

    /// Index of the first plot named `name`.
    pub fn find_plot(&self, name: &String) -> (r: Option<usize>)
        ensures
            match r {
                Some(i) => i < self.plot_states@.len() && first_named(self.plot_states@, name@) == Some(
                    i as int,
                ),
                None => first_named(self.plot_states@, name@) is None,
            },
    {
        proof {
            lemma_first_named_from(self.plot_states@, name@, 0);
        }
        let n = self.plot_states.len();
        let mut i: usize = 0;
        while i < n
            invariant
                i <= n == self.plot_states@.len(),
                first_named_from(self.plot_states@, name@, i as int) == first_named(
                    self.plot_states@,
                    name@,
                ),
            decreases n - i,
        {
            if self.plot_states[i].config.name == *name {
                return Some(i);
            }
            i = i + 1;
        }
        None
    }

    /// Takes in one record from the worker: the line goes to the serial log;
    /// a point goes to the history of the first plot of that name; a
    /// non-numeric reading becomes that plot's text value.
    pub fn ingest(&mut self, data: PlotData<P>)
        ensures
            old(self).wf() ==> final(self).wf(),
            final(self).log_history@ == pushed(
                old(self).log_history@,
                old(self).log_history.capacity(),
                data.raw_line,
            ),
            final(self).log_history.capacity() == old(self).log_history.capacity(),
            final(self).log_history@.len() <= room(old(self).log_history.capacity()),
            final(self).selected_port_name == old(self).selected_port_name,
            final(self).is_connected == old(self).is_connected,
            final(self).config_file_path == old(self).config_file_path,
            final(self).loaded_config == old(self).loaded_config,
            final(self).config_load_error == old(self).config_load_error,
            final(self).editable_params == old(self).editable_params,
            final(self).command_input == old(self).command_input,
            match data.point {
                Some(p) => {
                    &&& final(self).state_values == old(self).state_values
                    &&& match first_named(old(self).plot_states@, data.plot_name@) {
                        Some(i) => {
                            &&& final(self).plot_states@.len() == old(self).plot_states@.len()
                            &&& forall|j: int|
                                0 <= j < old(self).plot_states@.len() && j != i ==> final(self).plot_states@[j] == old(self).plot_states@[j]
                            &&& final(self).plot_states@[i].config == old(self).plot_states@[i].config
                            &&& final(self).plot_states@[i].data.capacity() == old(self).plot_states@[i].data.capacity()
                            &&& final(self).plot_states@[i].data@ == pushed(
                                old(self).plot_states@[i].data@,
                                old(self).plot_states@[i].data.capacity(),
                                p,
                            )
                            &&& final(self).plot_states@[i].data@.len() <= room(
                                old(self).plot_states@[i].data.capacity(),
                            )
                        },
                        None => final(self).plot_states == old(self).plot_states,
                    }
                },
                None => {
                    &&& final(self).plot_states == old(self).plot_states
                    &&& final(self).state_values@ == text_state_after(
                        old(self).state_values@,
                        old(self).plot_states@,
                        data.plot_name@,
                        data.raw_line@,
                    )
                },
            },
    {
        let PlotData { plot_name, point, raw_line } = data;
        let found = self.find_plot(&plot_name);
        match point {
            Some(p) => {
                match found {
                    Some(i) => {
                        let mut states: Vec<PlotState<P>> = Vec::new();
                        std::mem::swap(&mut states, &mut self.plot_states);
                        let mut st = states.remove(i);
                        st.data.push(p);
                        states.insert(i, st);
                        self.plot_states = states;
                    },
                    None => {},
                }
            },
            None => {
                match found {
                    Some(i) => {
                        match split_once(raw_line.as_str(), self.plot_states[i].config.data_key.as_str()) {
                            Some((_before, value)) => {
                                let v = trim(value.as_str());
                                self.state_values.insert(plot_name, v);
                            },
                            None => {},
                        }
                    },
                    None => {},
                }
            },
        }
        self.log_history.push(raw_line);
    }

    /// Whether the connect button is enabled: a configuration is loaded and
    /// a port is selected.
    pub fn connect_enabled(&self) -> (r: bool)
        ensures
            r == (self.loaded_config is Some && self.selected_port_name@.len() > 0),
    {
        self.loaded_config.is_some() && !self.selected_port_name.as_str().is_empty()
    }

    /// Whether the send button is enabled: connected, with a command typed.
    pub fn send_enabled(&self) -> (r: bool)
        ensures
            r == (self.is_connected && self.command_input@.len() > 0),
    {
        self.is_connected && !self.command_input.as_str().is_empty()
    }

    /// Marks the monitor disconnected.
    pub fn disconnect(&mut self)
        ensures
            !final(self).is_connected,
            final(self).selected_port_name == old(self).selected_port_name,
            final(self).config_file_path == old(self).config_file_path,
            final(self).loaded_config == old(self).loaded_config,
            final(self).config_load_error == old(self).config_load_error,
            final(self).plot_states == old(self).plot_states,
            final(self).state_values == old(self).state_values,
            final(self).log_history == old(self).log_history,
            final(self).editable_params == old(self).editable_params,
            final(self).command_input == old(self).command_input,
    {
        self.is_connected = false;
    }

    /// Connects: without a loaded configuration the monitor stays
    /// disconnected and shows why; with one it is connected and the returned
    /// plan holds what the worker needs.
    pub fn connect(&mut self) -> (r: Option<ConnectPlan>)
        ensures
            final(self).selected_port_name == old(self).selected_port_name,
            final(self).config_file_path == old(self).config_file_path,
            final(self).loaded_config == old(self).loaded_config,
            final(self).plot_states == old(self).plot_states,
            final(self).state_values == old(self).state_values,
            final(self).log_history == old(self).log_history,
            final(self).editable_params == old(self).editable_params,
            final(self).command_input == old(self).command_input,
            match old(self).loaded_config {
                None => {
                    &&& r is None
                    &&& !final(self).is_connected
                    &&& final(self).config_load_error matches Some(m) && m@
                        == "Cannot connect: Configuration not loaded."@
                },
                Some(config) => {
                    &&& final(self).is_connected
                    &&& final(self).config_load_error == old(self).config_load_error
                    &&& r matches Some(plan) && {
                        &&& plan.port_name@ == old(self).selected_port_name@
                        &&& plan.serial == config.serial
                        &&& plan.commands@.len() == config.commands@.len()
                        &&& forall|i: int|
                            0 <= i < plan.commands@.len() ==> (#[trigger] plan.commands@[i]).command@
                                == config.commands@[i].command@ && plan.commands@[i].plots@
                                == config.commands@[i].plots@
                        &&& all_plots(plan.commands@) == all_plots(config.commands@)
                        &&& plan.params@ == old(self).editable_params@
                    }
                },
            },
    {
        self.disconnect();
        match &self.loaded_config {
            None => {
                self.config_load_error = Some("Cannot connect: Configuration not loaded.".to_owned());
                None
            },
            Some(config) => {
                let plan = ConnectPlan {
                    port_name: self.selected_port_name.clone(),
                    serial: config.serial,
                    commands: clone_commands(&config.commands),
                    params: self.editable_params.clone(),
                };
                self.is_connected = true;
                Some(plan)
            },
        }
    }

    /// Empties the command input once the command has been handed to the
    /// worker.
    pub fn clear_command_input(&mut self)
        ensures
            final(self).command_input@ == Seq::<char>::empty(),
            final(self).is_connected == old(self).is_connected,
            final(self).selected_port_name == old(self).selected_port_name,
            final(self).config_file_path == old(self).config_file_path,
            final(self).loaded_config == old(self).loaded_config,
            final(self).config_load_error == old(self).config_load_error,
            final(self).plot_states == old(self).plot_states,
            final(self).state_values == old(self).state_values,
            final(self).log_history == old(self).log_history,
            final(self).editable_params == old(self).editable_params,
    {
        self.command_input = String::new();
    }

    /// Changes the value of an existing product parameter; an unknown key
    /// changes nothing.
    pub fn set_param(&mut self, key: &String, value: String)
        ensures
            old(self).editable_params@.dom().contains(key@) ==> final(self).editable_params@ == old(self).editable_params@.insert(key@, value@),
            !old(self).editable_params@.dom().contains(key@) ==> final(self).editable_params@
                == old(self).editable_params@,
            final(self).is_connected == old(self).is_connected,
            final(self).selected_port_name == old(self).selected_port_name,
            final(self).config_file_path == old(self).config_file_path,
            final(self).loaded_config == old(self).loaded_config,
            final(self).config_load_error == old(self).config_load_error,
            final(self).plot_states == old(self).plot_states,
            final(self).state_values == old(self).state_values,
            final(self).log_history == old(self).log_history,
            final(self).command_input == old(self).command_input,
    {
        if self.editable_params.contains_key(key) {
            self.editable_params.insert(key.clone(), value);
        }
    }

    /// What the configuration panel shows: a load error first, else the
    /// loaded product's type, else that a configuration is awaited.
    pub fn config_status(&self) -> (r: ConfigStatus)
        ensures
            match self.config_load_error {
                Some(e) => r matches ConfigStatus::Failed(m) && m@ == e@,
                None => match self.loaded_config {
                    Some(c) => r matches ConfigStatus::Loaded(t) && t@ == c.product_type@,
                    None => r is Awaiting,
                },
            },
    {
        match &self.config_load_error {
            Some(e) => ConfigStatus::Failed(e.clone()),
            None => match &self.loaded_config {
                Some(c) => ConfigStatus::Loaded(c.product_type.clone()),
                None => ConfigStatus::Awaiting,
            },
        }
    }

    /// The parameters to hand the worker after the parameter panel was
    /// drawn: only when a parameter was edited and a worker is running.
    pub fn params_update(&self, edited: bool) -> (r: Option<TextMap>)
        ensures
            (r is Some) == (edited && self.is_connected),
            r matches Some(p) ==> p@ == self.editable_params@,
    {
        if edited && self.is_connected {
            Some(self.editable_params.clone())
        } else {
            None
        }
    }

    /// Indices, in order, of the plots drawn as graphs: those that have
    /// received no text value.
    pub fn drawn_plots(&self) -> (r: Vec<usize>)
        ensures
            r@.len() == drawn_below(self.plot_states@, self.state_values@, self.plot_states@.len() as int).len(),
            forall|k: int|
                0 <= k < r@.len() ==> r@[k] as int == drawn_below(
                    self.plot_states@,
                    self.state_values@,
                    self.plot_states@.len() as int,
                )[k],
    {
        let n = self.plot_states.len();
        let mut r: Vec<usize> = Vec::new();
        let mut i: usize = 0;
        while i < n
            invariant
                i <= n == self.plot_states@.len(),
                r@.len() == drawn_below(self.plot_states@, self.state_values@, i as int).len(),
                forall|k: int|
                    0 <= k < r@.len() ==> r@[k] as int == drawn_below(
                        self.plot_states@,
                        self.state_values@,
                        i as int,
                    )[k],
            decreases n - i,
        {
            if !self.state_values.contains_key(&self.plot_states[i].config.name) {
                r.push(i);
            }
            i = i + 1;
        }
        r
    }
}

} // verus!
