//! Build requests: environment assignments, compiler options and subcommands.
use crate::text::{chars_of, push_all, push_str, string_of};
use crate::project::manifest::{split_once_spec, trim_chars, trim_spec};
use vstd::prelude::*;

verus! {

/// A `KEY=VALUE` assignment for the environment of a compiler run.
#[derive(Clone, Debug)]
pub struct EnvVar {
    pub key: String,
    pub value: String,
}

/// What `EnvVar::parse` makes of its input: the key before the first `=` (trimmed, not
/// empty) and the value after it (as written), or the error message.
pub open spec fn parsed_env(input: Seq<char>) -> Result<(Seq<char>, Seq<char>), Seq<char>> {
    match split_once_spec(input, '=') {
        None => Err("invalid env assignment `"@ + input + "`, expected KEY=VALUE"@),
        Some((key, value)) => if trim_spec(key, false).len() == 0 {
            Err("invalid env assignment `"@ + input + "`, key cannot be empty"@)
        } else {
            Ok((trim_spec(key, false), value))
        },
    }
}

impl EnvVar {
    pub fn parse(input: &str) -> (r: Result<Self, String>)
        ensures
            match r {
                Ok(var) => parsed_env(input@) == Ok::<(Seq<char>, Seq<char>), Seq<char>>(
                    (var.key@, var.value@),
                ),
                Err(message) => parsed_env(input@) == Err::<(Seq<char>, Seq<char>), Seq<char>>(
                    message@,
                ),
            },
    {
        let s = chars_of(input);
        match crate::project::manifest::split_once(&s, '=') {
            None => {
                let mut out: Vec<char> = Vec::new();
                push_str(&mut out, "invalid env assignment `");
                push_all(&mut out, &s);
                push_str(&mut out, "`, expected KEY=VALUE");
                Err(string_of(&out))
            },
            Some((key, value)) => {
                let k = trim_chars(&key, false);
                if k.len() == 0 {
                    let mut out: Vec<char> = Vec::new();
                    push_str(&mut out, "invalid env assignment `");
                    push_all(&mut out, &s);
                    push_str(&mut out, "`, key cannot be empty");
                    Err(string_of(&out))
                } else {
                    Ok(EnvVar { key: string_of(&k), value: string_of(&value) })
                }
            },
        }
    }

    pub fn key(&self) -> (key: &str)
        ensures
            key@ == self.key@,
    {
        self.key.as_str()
    }

    pub fn value(&self) -> (value: &str)
        ensures
            value@ == self.value@,
    {
        self.value.as_str()
    }
}

/// Options of a compiler run: the profile, extra environment and extra arguments.
#[derive(Clone, Debug)]
pub struct RustcOptions {
    pub release: bool,
    pub envs: Vec<EnvVar>,
    pub args: Vec<String>,
}

impl RustcOptions {
    /// The extra arguments, in order.
    pub fn command_args(&self) -> (args: &Vec<String>)
        ensures
            args@ == self.args@,
    {
        &self.args
    }
}

#[derive(Clone, Debug)]
pub struct BuildOptions {
    pub rustc: RustcOptions,
}

#[derive(Clone, Debug)]
pub struct RunOptions {
    pub rustc: RustcOptions,
    pub app_args: Vec<String>,
}

#[derive(Clone, Debug)]
pub struct TestOptions {
    pub rustc: RustcOptions,
}

#[derive(Clone, Debug)]
pub struct CleanOptions;

#[derive(Clone, Debug)]
pub struct AddOptions {
    pub packages: Vec<String>,
}

#[derive(Clone, Debug)]
pub struct RemoveOptions {
    pub packages: Vec<String>,
}

/// What a build command asks for.
#[derive(Clone, Debug)]
pub enum BuildSubcommand {
    Add(AddOptions),
    Build(BuildOptions),
    Clean(CleanOptions),
    Remove(RemoveOptions),
    Run(RunOptions),
    Test(TestOptions),
}

} // verus!
