//! Application configuration: the shell to run, the terminal size, the font
//! size and the color scheme. Every field has a default, so a missing or
//! partial configuration file is fine.

use vstd::prelude::*;
use vstd::string::*;

verus! {

/// Application configuration.
pub struct Config {
    pub shell: String,
    pub rows: u16,
    pub cols: u16,
    pub font_size: u16,
    pub color_scheme: String,
}

/// Default terminal height in rows.
pub fn default_rows() -> (r: u16)
    ensures
        r == 24,
{
    24
}

/// Default terminal width in columns.
pub fn default_cols() -> (c: u16)
    ensures
        c == 80,
{
    80
}

/// Default font size (reserved for a graphical front end).
pub fn default_font_size() -> (s: u16)
    ensures
        s == 14,
{
    14
}

/// Default color scheme name.
pub fn default_scheme() -> (s: String)
    ensures
        s@ == "dark"@,
{
    String::from_str("dark")
}

/// The configured shell when the file names none: the one named by the
/// environment (`$SHELL`), else `/bin/bash`.
pub fn fallback_shell(env_shell: Option<String>) -> (s: String)
    ensures
        s@ == match env_shell {
            Some(e) => e@,
            None => "/bin/bash"@,
        },
{
    match env_shell {
        Some(e) => e,
        None => String::from_str("/bin/bash"),
    }
}

/// Where the configuration file lives, as the path components to join:
/// `$XDG_CONFIG_HOME/terminal_emulator/config.toml` when that variable is
/// set, else `$HOME/.config/terminal_emulator/config.toml` (`.` standing in
/// for an unset `$HOME`).
pub fn config_path_parts(xdg_config_home: Option<String>, home: Option<String>) -> (v: Vec<String>)
    ensures
        match xdg_config_home {
            Some(x) => {
                &&& v@.len() == 3
                &&& v@[0]@ == x@
                &&& v@[1]@ == "terminal_emulator"@
                &&& v@[2]@ == "config.toml"@
            },
            None => {
                &&& v@.len() == 4
                &&& v@[0]@ == match home {
                    Some(h) => h@,
                    None => "."@,
                }
                &&& v@[1]@ == ".config"@
                &&& v@[2]@ == "terminal_emulator"@
                &&& v@[3]@ == "config.toml"@
            },
        },
{
    let mut v: Vec<String> = Vec::new();
    match xdg_config_home {
        Some(x) => v.push(x),
        None => {
            let base = match home {
                Some(h) => h,
                None => String::from_str("."),
            };
            v.push(base);
            v.push(String::from_str(".config"));
        },
    }
    v.push(String::from_str("terminal_emulator"));
    v.push(String::from_str("config.toml"));
    v
}

impl Config {
    /// The configuration that applies when no file sets anything: the given
    /// shell, 24 × 80, font size 14, the "dark" scheme.
    pub fn with_shell(shell: String) -> (c: Config)
        ensures
            c.shell@ == shell@,
            c.rows == 24,
            c.cols == 80,
            c.font_size == 14,
            c.color_scheme@ == "dark"@,
    {
        Config {
            shell,
            rows: default_rows(),
            cols: default_cols(),
            font_size: default_font_size(),
            color_scheme: default_scheme(),
        }
    }
}

} // verus!
