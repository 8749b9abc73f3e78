//! Which files make up the configuration, and what is in force once they are
//! read.

use vstd::prelude::*;
use vstd::string::*;

use crate::config;
use crate::config::{Config, ConfigView};
use crate::env_file;
use crate::env_file::read_file;
use crate::paths;
use crate::paths::expand_path;
use crate::table::Table;
use crate::text;
use crate::text::{opt_copy, strip_prefix};

verus! {

/// The byte of a dot.
pub const DOT: u8 = 46;

/// What follows the last dot of a file name, unless that dot begins the name.
pub open spec fn extension(name: Seq<u8>) -> Option<Seq<u8>> {
    match name.index_of_last(DOT) {
        Some(i) => if i > 0 && name != seq![DOT, DOT] {
            Some(name.skip(i + 1))
        } else {
            None
        },
        None => None,
    }
}

/// An upper-case letter of ASCII in lower case; any other byte as it is.
pub open spec fn ascii_lower(b: u8) -> u8 {
    if 'A' as u8 <= b <= 'Z' as u8 {
        (b + 32) as u8
    } else {
        b
    }
}

/// The bytes of `toml`.
pub open spec fn toml_bytes() -> Seq<u8> {
    seq!['t' as u8, 'o' as u8, 'm' as u8, 'l' as u8]
}

/// `ext` is `toml`, in upper or lower case.
pub open spec fn toml_extension(ext: Seq<u8>) -> bool {
    ext.map_values(|b: u8| ascii_lower(b)) == toml_bytes()
}

/// Whether a byte is a letter of ASCII, given in lower case.
fn is_letter(b: u8, lower: u8) -> (r: bool)
    ensures
        r == (ascii_lower(b) == lower),
{
    if 'A' as u8 <= b && b <= 'Z' as u8 {
        b + 32 == lower
    } else {
        b == lower
    }
}

/// Whether what was found in the configuration directory is a configuration
/// file: a file whose extension is `toml`, in upper or lower case.
pub fn is_config_file(is_file: bool, name: &Vec<u8>) -> (r: bool)
    ensures
        r <==> is_file && extension(name@) is Some && toml_extension(extension(name@)->0),
{
    let n: usize = name.len();
    proof {
        name@.index_of_last_ensures(DOT);
        if extension(name@) is Some && toml_extension(extension(name@)->0) {
            let ext = extension(name@)->0;
            let low = ext.map_values(|b: u8| ascii_lower(b));
            let word = toml_bytes();
            assert(low.len() == word.len());
            assert forall|k: int| 0 <= k < 4 implies ascii_lower(#[trigger] ext[k]) == word[k] by {
                assert(low[k] == word[k]);
            }
            assert(ext[0] == name@[n - 4] && ext[1] == name@[n - 3] && ext[2] == name@[n - 2]
                && ext[3] == name@[n - 1]);
        }
    }
    if !is_file || n < 6 {
        return false;
    }
    let r = name[n - 5] == DOT && is_letter(name[n - 4], 't' as u8) && is_letter(
        name[n - 3],
        'o' as u8,
    ) && is_letter(name[n - 2], 'm' as u8) && is_letter(name[n - 1], 'l' as u8);
    proof {
        if r {
            assert(name@.contains(DOT));
            assert(name@.index_of_last(DOT) == Some(n - 5));
            let ext = extension(name@)->0;
            assert(ext.map_values(|b: u8| ascii_lower(b)) =~= toml_bytes());
        }
    }
    r
}

/// Something found in the configuration directory: whether it is a file, and its
/// name.
#[derive(Debug)]
pub struct Found {
    pub is_file: bool,
    pub name: Vec<u8>,
}

impl Found {
    /// It is a configuration file: a file whose extension is `toml`, in upper or
    /// lower case.
    pub open spec fn is_config(self) -> bool {
        self.is_file && extension(self.name@) is Some && toml_extension(
            extension(self.name@)->0,
        )
    }
}

/// Where the configuration files stand among what was found.
pub open spec fn config_positions(found: Seq<Found>) -> Seq<int>
    decreases found.len(),
{
    if found.len() == 0 {
        Seq::empty()
    } else if found.last().is_config() {
        config_positions(found.drop_last()).push(found.len() - 1)
    } else {
        config_positions(found.drop_last())
    }
}

/// What is to be done about the configuration.
#[derive(Debug)]
pub enum LoadStep {
    /// There is none: one that says nothing is written and is in force.
    WriteDefault,
    /// The files at these positions are to be read.
    Read(Vec<usize>),
}

/// The positions of the files to read, or `None` where there are none and a
/// configuration that says nothing is written.
pub open spec fn load_plan(found: Seq<Found>) -> Option<Seq<int>> {
    if config_positions(found).len() == 0 {
        None
    } else {
        Some(config_positions(found))
    }
}

/// What a `LoadStep` says.
pub open spec fn step_view(step: LoadStep) -> Option<Seq<int>> {
    match step {
        LoadStep::WriteDefault => None,
        LoadStep::Read(at) => Some(at@.map_values(|i: usize| i as int)),
    }
}

/// What is to be done about the configuration, by what was found in its
/// directory.
pub fn plan_load(found: &Vec<Found>) -> (r: LoadStep)
    ensures
        step_view(r) == load_plan(found@),
        match r {
            LoadStep::WriteDefault => config_positions(found@).len() == 0,
            LoadStep::Read(at) => config_positions(found@).len() > 0 && at@.map_values(
                |i: usize| i as int,
            ) == config_positions(found@),
        },
{
    let mut at: Vec<usize> = Vec::new();
    let mut i: usize = 0;
    assert(at@.map_values(|i: usize| i as int) =~= config_positions(found@.take(0)));
    while i < found.len()
        invariant
            i <= found@.len(),
            at@.map_values(|i: usize| i as int) == config_positions(found@.take(i as int)),
        decreases found@.len() - i,
    {
        let ghost next = found@.take(i + 1);
        let ghost before = at@;
        assert(next.drop_last() =~= found@.take(i as int));
        assert(next.last() == found@[i as int]);
        if is_config_file(found[i].is_file, &found[i].name) {
            at.push(i);
            assert(at@.map_values(|i: usize| i as int) =~= before.map_values(
                |i: usize| i as int,
            ).push(i as int));
        }
        i = i + 1;
    }
    assert(found@.take(i as int) =~= found@);
    if at.len() == 0 {
        assert(at@.map_values(|i: usize| i as int).len() == 0);
        LoadStep::WriteDefault
    } else {
        assert(at@.map_values(|i: usize| i as int).len() > 0);
        LoadStep::Read(at)
    }
}

/// The contents of the files, one below the other.
pub open spec fn merged(contents: Seq<Seq<char>>) -> Seq<char>
    decreases contents.len(),
{
    if contents.len() == 0 {
        Seq::empty()
    } else if contents.len() == 1 {
        contents[0]
    } else {
        merged(contents.drop_last()) + "\n"@ + contents.last()
    }
}

/// Puts the contents of the files one below the other.
pub fn merge_contents(contents: &Vec<String>) -> (r: String)
    ensures
        r@ == merged(text::texts(contents@)),
{
    let ghost all = text::texts(contents@);
    let mut r = String::new();
    let mut i: usize = 0;
    assert(r@ =~= merged(all.take(0)));
    while i < contents.len()
        invariant
            i <= contents@.len(),
            all == text::texts(contents@),
            r@ == merged(all.take(i as int)),
        decreases contents@.len() - i,
    {
        let ghost next = all.take(i + 1);
        assert(next.drop_last() =~= all.take(i as int));
        assert(next.last() == contents@[i as int]@);
        if i > 0 {
            r.append("\n");
        }
        r.append(contents[i].as_str());
        assert(r@ =~= merged(next));
        i = i + 1;
    }
    assert(all.take(i as int) =~= all);
    r
}

impl ConfigView {
    /// The configuration that says nothing.
    pub open spec fn empty() -> ConfigView {
        ConfigView {
            providers: Map::empty(),
            models: Map::empty(),
            variants: Map::empty(),
            env_file: None,
            port: None,
            host: None,
            no_reload: false,
            api_key: None,
            env: Map::empty(),
        }
    }

    /// The configuration in force: what the files say, or nothing where they cannot be
    /// understood, with the variables of its environment file.
    pub open spec fn in_force(parsed: Option<ConfigView>, content: Option<Seq<char>>) -> ConfigView {
        match parsed {
            Some(c) => c.with_env(content),
            None => ConfigView::empty().with_env(content),
        }
    }

    /// The configuration with the variables of its environment file set. Without
    /// such a file, or where it cannot be read, nothing changes.
    pub open spec fn with_env(self, content: Option<Seq<char>>) -> ConfigView {
        match content {
            Some(c) => if self.env_file is Some {
                ConfigView { env: env_file::after_file(self.env, c), ..self }
            } else {
                self
            },
            None => self,
        }
    }

    /// The port of the application.
    pub open spec fn chosen_port(self) -> u16 {
        match self.port {
            Some(p) => p,
            None => 3000,
        }
    }

    /// The host of the application.
    pub open spec fn chosen_host(self) -> Seq<char> {
        match self.host {
            Some(h) => h,
            None => "localhost"@,
        }
    }

    /// The configuration is read anew when it changes.
    pub open spec fn reloads(self) -> bool {
        !self.no_reload
    }

    /// The key of the application. A key that begins with `env::` is the value of
    /// the variable of the process named after that.
    pub open spec fn application_key(self, process_env: Map<Seq<char>, Seq<char>>) -> Option<
        Seq<char>,
    > {
        match self.api_key {
            Some(key) => if text::has_prefix(key, config::env_prefix()) {
                process_env.get(key.skip(config::env_prefix().len() as int))
            } else {
                Some(key)
            },
            None => None,
        }
    }
}

impl Default for Config {
    fn default() -> (r: Self)
        ensures
            r@ == ConfigView::empty(),
    {
        Config {
            providers: Table::new(),
            models: Table::new(),
            variants: Table::new(),
            env_file: None,
            port: None,
            host: None,
            no_reload: false,
            api_key: None,
            env: Table::new(),
        }
    }
}

impl Config {
    /// The configuration in force: what the files say, or nothing where they
    /// cannot be understood, with the variables of its environment file. `env_text`
    /// is the content of that file, where it could be read.
    pub fn load(parsed: Option<Config>, env_text: Option<&str>) -> (r: Config)
        ensures
            r@ == ConfigView::in_force(
                match parsed {
                    Some(c) => Some(c@),
                    None => None,
                },
                match env_text {
                    Some(t) => Some(t@),
                    None => None,
                },
            ),
            r@ == (match parsed {
                Some(c) => c@,
                None => ConfigView::empty(),
            }).with_env(
                match env_text {
                    Some(t) => Some(t@),
                    None => None,
                },
            ),
    {
        let mut config = match parsed {
            Some(c) => c,
            None => Config::default(),
        };
        config.load_env(env_text);
        config
    }

    /// Sets the variables of the environment file, whose content is `content` where
    /// it could be read.
    pub fn load_env(&mut self, content: Option<&str>)
        ensures
            final(self)@ == old(self)@.with_env(
                match content {
                    Some(t) => Some(t@),
                    None => None,
                },
            ),
    {
        if self.env_file.is_none() {
            return ;
        }
        if let Some(t) = content {
            read_file(&mut self.env, t);
        }
    }

    /// Returns application port
    pub fn get_port(&self) -> (r: u16)
        ensures
            r == self@.chosen_port(),
            r == (match self@.port {
                Some(p) => p,
                None => 3000,
            }),
    {
        match self.port {
            Some(p) => p,
            None => 3000,
        }
    }

    /// Returns application host
    pub fn get_host(&self) -> (r: String)
        ensures
            r@ == self@.chosen_host(),
            r@ == (match self@.host {
                Some(h) => h,
                None => "localhost"@,
            }),
    {
        match &self.host {
            Some(h) => h.clone(),
            None => "localhost".to_owned(),
        }
    }

    /// Returns application api key
    pub fn get_api_key(&self, process_env: &Table<String>) -> (r: Option<String>)
        ensures
            text::opt_text(r) == self@.application_key(process_env@),
    {
        match &self.api_key {
            Some(key) => {
                match strip_prefix(key.as_str(), "env::") {
                    Some(name) => {
                        match process_env.get(name) {
                            Some(value) => Some(value.clone()),
                            None => None,
                        }
                    },
                    None => Some(key.clone()),
                }
            },
            None => None,
        }
    }

    /// Checks if hot-reload is enabled
    pub fn is_reload_enabled(&self) -> (r: bool)
        ensures
            r == self@.reloads(),
            r == !self@.no_reload,
    {
        !self.no_reload
    }

    /// Get env file path
    pub fn get_env_file(&self) -> (r: Option<String>)
        ensures
            text::opt_text(r) == self@.env_file,
    {
        opt_copy(&self.env_file)
    }

    /// Where the environment file is read from: its path with the home directory in
    /// place of the tilde that it begins with.
    pub fn env_file_location(&self) -> (r: Option<String>)
        ensures
            r is Some <==> self@.env_file is Some,
            r matches Some(p) ==> paths::some_expansion(self@.env_file->0, p@),
            r matches Some(p) ==> !paths::tilde_path(self@.env_file->0) ==> p@
                == self@.env_file->0,
    {
        match &self.env_file {
            Some(path) => Some(expand_path(path.as_str())),
            None => None,
        }
    }
}

} // verus!
