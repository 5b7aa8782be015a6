//! Where the configuration document comes from, and what is made of what
//! was found there. Reading and decoding are the host's; the choices are made
//! here.

use crate::error::{ConfigError, ConfigErrorSpec};
use vstd::prelude::*;
use vstd::string::*;

verus! {

/// The path that stands for standard input.
pub const STDIN_PATH: &'static str = "-";

/// Name of the configuration file that is looked for in the current
/// directory when no path is given.
pub const RC_FILE_NAME: &'static str = ".watchmuxrc.yaml";

/// The characters of `STDIN_PATH`.
pub open spec fn stdin_path() -> Seq<char> {
    seq!['-']
}

/// Where to read the configuration document from.
#[derive(Debug, PartialEq, Eq)]
pub enum ConfigSource {
    /// From standard input.
    Stdin,
    /// From the file at this path.
    File(String),
    /// From the file called `RC_FILE_NAME` in the current directory.
    RcFile,
}

/// Mathematical model of a `ConfigSource`.
pub enum ConfigSourceSpec {
    Stdin,
    File(Seq<char>),
    RcFile,
}

impl View for ConfigSource {
    type V = ConfigSourceSpec;

    open spec fn view(&self) -> ConfigSourceSpec {
        match self {
            ConfigSource::Stdin => ConfigSourceSpec::Stdin,
            ConfigSource::File(path) => ConfigSourceSpec::File(path@),
            ConfigSource::RcFile => ConfigSourceSpec::RcFile,
        }
    }
}

/// The source that a path given on the command line selects: standard input
/// for the path `-`, the file for any other path, and the file in the current
/// directory when no path was given.
pub open spec fn source_for(path: Option<Seq<char>>) -> ConfigSourceSpec {
    match path {
        Some(path) => if path == stdin_path() {
            ConfigSourceSpec::Stdin
        } else {
            ConfigSourceSpec::File(path)
        },
        None => ConfigSourceSpec::RcFile,
    }
}

/// The model of an optional path.
pub open spec fn path_view(path: Option<String>) -> Option<Seq<char>> {
    match path {
        Some(path) => Some(path@),
        None => None,
    }
}

impl ConfigSource {
    /// Selects the source for the path given on the command line, if any.
    pub fn select(path: Option<String>) -> (source: ConfigSource)
        ensures
            source@ == source_for(path_view(path)),
    {
        match path {
            Some(path) => {
                let marker = STDIN_PATH.to_owned();
                proof {
                    reveal_strlit("-");
                    assert(marker@ =~= stdin_path());
                }
                if path == marker {
                    ConfigSource::Stdin
                } else {
                    ConfigSource::File(path)
                }
            },
            None => ConfigSource::RcFile,
        }
    }
}

/// The lines put together, each followed by a newline.
pub open spec fn joined_lines(lines: Seq<Seq<char>>) -> Seq<char>
    decreases lines.len(),
{
    if lines.len() == 0 {
        Seq::empty()
    } else {
        joined_lines(lines.drop_last()) + lines.last().push('\n')
    }
}

/// The model of a document or the error in its place.
pub open spec fn document_view(result: Result<String, ConfigError>) -> Result<
    Seq<char>,
    ConfigErrorSpec,
> {
    match result {
        Ok(text) => Ok(text@),
        Err(error) => Err(error@),
    }
}

/// The document that was read from standard input line by line: the lines,
/// each followed by a newline; but if there was no line at all, the
/// configuration is missing.
pub fn document_from_lines(lines: &Vec<String>) -> (document: Result<String, ConfigError>)
    ensures
        document_view(document) == if lines.len() == 0 {
            Err::<Seq<char>, ConfigErrorSpec>(ConfigErrorSpec::Missing)
        } else {
            Ok::<Seq<char>, ConfigErrorSpec>(joined_lines(lines.deep_view()))
        },
{
    let n = lines.len();
    if n == 0 {
        return Err(ConfigError::Missing);
    }
    let mut text = String::new();
    let mut i: usize = 0;
    assert(lines.deep_view().take(0) =~= Seq::<Seq<char>>::empty());
    while i < n
        invariant
            n == lines.len(),
            i <= n,
            text@ == joined_lines(lines.deep_view().take(i as int)),
        decreases n - i,
    {
        text.append(lines[i].as_str());
        text.append("\n");
        proof {
            reveal_strlit("\n");
            let done = lines.deep_view().take(i + 1);
            assert(done.drop_last() =~= lines.deep_view().take(i as int));
            assert(done.last() == lines[i as int]@);
            assert(text@ =~= joined_lines(done));
        }
        i = i + 1;
    }
    assert(lines.deep_view().take(n as int) =~= lines.deep_view());
    Ok(text)
}

/// What to do after the current directory was asked whether it holds the
/// configuration file. If the question could be asked the file is read,
/// whatever the answer was, and a file that is not there then fails to be
/// read; if the question itself failed, there is no configuration file.
pub fn after_probe(probe: Result<bool, String>) -> (go_on: Result<(), ConfigError>)
    ensures
        probe is Ok ==> go_on is Ok,
        probe is Err ==> go_on == Err::<(), ConfigError>(ConfigError::NoRcFile),
{
    match probe {
        Ok(_) => Ok(()),
        Err(_) => Err(ConfigError::NoRcFile),
    }
}

} // verus!
