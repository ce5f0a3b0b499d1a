//! Cargo invocations of the generated project: options, subcommands and command lines.
use crate::text::{chars_of, string_of};
use crate::build::types::EnvVar;
use crate::build::runner::{parse_env_assignments, parsed_envs};
use crate::build::compiler::strings_view;
use vstd::prelude::*;

verus! {

/// Options shared by the cargo subcommands: the profile, extra environment and extra
/// arguments.
#[derive(Clone, Debug)]
pub struct CargoOptions {
    pub release: bool,
    pub envs: Vec<EnvVar>,
    pub args: Vec<String>,
}

/// Cargo options from the command line: the profile, `KEY=VALUE` assignments (each must
/// parse) and the extra arguments.
pub fn cargo_options_from_parts(release: bool, env: &Vec<String>, cargo_args: Vec<String>) -> (r: Result<CargoOptions, String>)
    ensures
        match r {
            Ok(o) => o.release == release && o.args == cargo_args && parsed_envs(
                env@.map_values(|s: String| s@),
            ) == Ok::<Seq<(Seq<char>, Seq<char>)>, Seq<char>>(
                o.envs@.map_values(|e: EnvVar| (e.key@, e.value@)),
            ),
            Err(message) => parsed_envs(env@.map_values(|s: String| s@)) == Err::<
                Seq<(Seq<char>, Seq<char>)>,
                Seq<char>,
            >(message@),
        },
{
    match parse_env_assignments(env) {
        Ok(envs) => Ok(CargoOptions { release, envs, args: cargo_args }),
        Err(e) => Err(e),
    }
}

/// The arguments the options add: `--release` when asked for, then the extra arguments.
pub open spec fn cargo_args_spec(release: bool, args: Seq<Seq<char>>) -> Seq<Seq<char>> {
    (if release {
        seq!["--release"@]
    } else {
        seq![]
    }) + args
}

pub fn owned(s: &str) -> (r: String)
    ensures
        r@ == s@,
{
    string_of(&chars_of(s))
}

/// Copies a list of strings.
pub fn copy_strings(v: &Vec<String>) -> (r: Vec<String>)
    ensures
        strings_view(r@) == strings_view(v@),
{
    let mut out: Vec<String> = Vec::new();
    let mut i: usize = 0;
    while i < v.len()
        invariant
            i <= v@.len(),
            strings_view(out@) == strings_view(v@).take(i as int),
        decreases v@.len() - i,
    {
        let ghost prev = strings_view(out@);
        out.push(owned(v[i].as_str()));
        assert(strings_view(out@) =~= prev.push(v@[i as int]@));
        assert(strings_view(v@).take(i + 1) =~= strings_view(v@).take(i as int).push(v@[i as int]@));
        assert(strings_view(out@) =~= strings_view(v@).take(i + 1));
        i += 1;
    }
    assert(strings_view(v@).take(i as int) =~= strings_view(v@));
    out
}

impl CargoOptions {
    pub fn command_args(&self) -> (args: Vec<String>)
        ensures
            strings_view(args@) == cargo_args_spec(self.release, strings_view(self.args@)),
    {
        let mut out: Vec<String> = Vec::new();
        if self.release {
            out.push(owned("--release"));
        }
        let ghost head = strings_view(out@);
        let mut i: usize = 0;
        while i < self.args.len()
            invariant
                i <= self.args@.len(),
                strings_view(out@) == head + strings_view(self.args@).take(i as int),
            decreases self.args@.len() - i,
        {
            let ghost prev = strings_view(out@);
            out.push(owned(self.args[i].as_str()));
            assert(strings_view(out@) =~= prev.push(self.args@[i as int]@));
            assert(strings_view(self.args@).take(i + 1) =~= strings_view(self.args@).take(i as int).push(self.args@[i as int]@));
            assert(strings_view(out@) =~= head + strings_view(self.args@).take(i + 1));
            i += 1;
        }
        assert(strings_view(self.args@).take(i as int) =~= strings_view(self.args@));
        assert(head =~= (if self.release {
            seq!["--release"@]
        } else {
            Seq::<Seq<char>>::empty()
        }));
        out
    }
}

#[derive(Clone, Debug)]
pub struct BuildOptions {
    pub cargo: CargoOptions,
}

#[derive(Clone, Debug)]
pub struct RunOptions {
    pub cargo: CargoOptions,
    pub app_args: Vec<String>,
}

#[derive(Clone, Debug)]
pub struct AddOptions {
    pub cargo: CargoOptions,
    pub packages: Vec<String>,
}

#[derive(Clone, Debug)]
pub struct RemoveOptions {
    pub cargo: CargoOptions,
    pub packages: Vec<String>,
}

#[derive(Clone, Debug)]
pub struct TestOptions {
    pub cargo: CargoOptions,
}

#[derive(Clone, Debug)]
pub struct CleanOptions {
    pub cargo: CargoOptions,
}

/// What a cargo command asks for.
#[derive(Clone, Debug)]
pub enum CargoSubcommand {
    Add(AddOptions),
    Build(BuildOptions),
    Clean(CleanOptions),
    Remove(RemoveOptions),
    Run(RunOptions),
    Test(TestOptions),
    Custom { name: String, cargo: CargoOptions },
}

/// A `cargo` command line: where it runs, its arguments after `cargo`, and the environment
/// it adds.
pub struct CargoCommand {
    pub workdir: String,
    pub args: Vec<String>,
    pub envs: Vec<(String, String)>,
}

pub open spec fn envs_view(v: Seq<EnvVar>) -> Seq<(Seq<char>, Seq<char>)> {
    v.map_values(|e: EnvVar| (e.key@, e.value@))
}

pub open spec fn pairs_view(v: Seq<(String, String)>) -> Seq<(Seq<char>, Seq<char>)> {
    v.map_values(|e: (String, String)| (e.0@, e.1@))
}

impl CargoCommand {
    /// `cargo <subcommand>` in `workdir`.
    pub fn new(workdir: &str, subcommand: &str) -> (command: Self)
        ensures
            command.workdir@ == workdir@,
            strings_view(command.args@) == seq![subcommand@],
            command.envs@.len() == 0,
    {
        let mut args: Vec<String> = Vec::new();
        args.push(owned(subcommand));
        assert(strings_view(args@) =~= seq![subcommand@]);
        CargoCommand { workdir: owned(workdir), args, envs: Vec::new() }
    }

    /// Adds the environment and arguments of the options.
    pub fn apply_options(self, options: &CargoOptions) -> (command: Self)
        ensures
            command.workdir == self.workdir,
            strings_view(command.args@) == strings_view(self.args@) + cargo_args_spec(
                options.release,
                strings_view(options.args@),
            ),
            pairs_view(command.envs@) == pairs_view(self.envs@) + envs_view(options.envs@),
    {
        let mut command = self;
        command.apply_envs(&options.envs);
        command.args(&options.command_args())
    }

    /// Adds environment assignments.
    pub fn apply_envs(&mut self, envs: &Vec<EnvVar>)
        ensures
            final(self).workdir == old(self).workdir,
            final(self).args == old(self).args,
            pairs_view(final(self).envs@) == pairs_view(old(self).envs@) + envs_view(envs@),
    {
        let ghost start = pairs_view(self.envs@);
        let mut i: usize = 0;
        while i < envs.len()
            invariant
                i <= envs@.len(),
                self.workdir == old(self).workdir,
                self.args == old(self).args,
                pairs_view(self.envs@) == start + envs_view(envs@).take(i as int),
            decreases envs@.len() - i,
        {
            let ghost prev = pairs_view(self.envs@);
            self.envs.push((owned(envs[i].key()), owned(envs[i].value())));
            assert(pairs_view(self.envs@) =~= prev.push((envs@[i as int].key@, envs@[i as int].value@)));
            assert(envs_view(envs@).take(i + 1) =~= envs_view(envs@).take(i as int).push((envs@[i as int].key@, envs@[i as int].value@)));
            assert(pairs_view(self.envs@) =~= start + envs_view(envs@).take(i + 1));
            i += 1;
        }
        assert(envs_view(envs@).take(i as int) =~= envs_view(envs@));
    }

    /// Adds arguments.
    pub fn args(self, args: &Vec<String>) -> (command: Self)
        ensures
            command.workdir == self.workdir,
            command.envs == self.envs,
            strings_view(command.args@) == strings_view(self.args@) + strings_view(args@),
    {
        let mut command = self;
        let ghost start = strings_view(command.args@);
        let mut i: usize = 0;
        while i < args.len()
            invariant
                i <= args@.len(),
                command.workdir == self.workdir,
                command.envs == self.envs,
                strings_view(command.args@) == start + strings_view(args@).take(i as int),
            decreases args@.len() - i,
        {
            let ghost prev = strings_view(command.args@);
            command.args.push(owned(args[i].as_str()));
            assert(strings_view(command.args@) =~= prev.push(args@[i as int]@));
            assert(strings_view(args@).take(i + 1) =~= strings_view(args@).take(i as int).push(args@[i as int]@));
            assert(strings_view(command.args@) =~= start + strings_view(args@).take(i + 1));
            i += 1;
        }
        assert(strings_view(args@).take(i as int) =~= strings_view(args@));
        command
    }

    /// Adds the arguments of the program that cargo runs, after `--`; nothing when there
    /// are none.
    pub fn app_args(self, args: &Vec<String>) -> (command: Self)
        ensures
            command.workdir == self.workdir,
            command.envs == self.envs,
            strings_view(command.args@) == strings_view(self.args@) + (if args@.len() == 0 {
                Seq::<Seq<char>>::empty()
            } else {
                seq!["--"@] + strings_view(args@)
            }),
    {
        if args.len() == 0 {
            assert(strings_view(self.args@) + Seq::<Seq<char>>::empty() =~= strings_view(self.args@));
            return self;
        }
        let mut command = self;
        let ghost start = strings_view(command.args@);
        command.args.push(owned("--"));
        let command = command.args(args);
        assert(strings_view(command.args@) =~= start + (seq!["--"@] + strings_view(args@)));
        command
    }
}

/// Runs cargo in the generated project.
pub struct CargoRunner {
    pub workdir: String,
}

impl CargoRunner {
    pub fn new(workdir: String) -> (runner: Self)
        ensures
            runner.workdir == workdir,
    {
        CargoRunner { workdir }
    }

    /// The name and command line of a subcommand; `add` and `remove` need packages.
    pub fn command(&self, subcommand: &CargoSubcommand) -> (r: Result<(String, CargoCommand), String>)
        ensures
            match subcommand {
                CargoSubcommand::Add(o) => (o.packages@.len() == 0 <==> r is Err) && (r matches Err(
                    m,
                ) ==> m@ == "cargo add requires at least one package"@),
                CargoSubcommand::Remove(o) => (o.packages@.len() == 0 <==> r is Err) && (
                r matches Err(m) ==> m@ == "cargo remove requires at least one package"@),
                _ => r is Ok,
            },
            r matches Ok((name, command)) ==> command.workdir@ == self.workdir@
                && strings_view(command.args@).len() > 0 && strings_view(command.args@)[0]
                == name@ && strings_view(command.args@) == seq![name@] + match subcommand {
                CargoSubcommand::Add(o) => cargo_args_spec(o.cargo.release, strings_view(o.cargo.args@))
                    + strings_view(o.packages@),
                CargoSubcommand::Remove(o) => cargo_args_spec(o.cargo.release, strings_view(o.cargo.args@))
                    + strings_view(o.packages@),
                CargoSubcommand::Build(o) => cargo_args_spec(o.cargo.release, strings_view(o.cargo.args@)),
                CargoSubcommand::Clean(o) => cargo_args_spec(o.cargo.release, strings_view(o.cargo.args@)),
                CargoSubcommand::Test(o) => cargo_args_spec(o.cargo.release, strings_view(o.cargo.args@)),
                CargoSubcommand::Run(o) => cargo_args_spec(o.cargo.release, strings_view(o.cargo.args@))
                    + (if o.app_args@.len() == 0 {
                    Seq::<Seq<char>>::empty()
                } else {
                    seq!["--"@] + strings_view(o.app_args@)
                }),
                CargoSubcommand::Custom { name: n, cargo } => cargo_args_spec(
                    cargo.release,
                    strings_view(cargo.args@),
                ),
            },
            r matches Ok((name, _)) ==> match subcommand {
                CargoSubcommand::Add(_) => name@ == "add"@,
                CargoSubcommand::Remove(_) => name@ == "remove"@,
                CargoSubcommand::Build(_) => name@ == "build"@,
                CargoSubcommand::Clean(_) => name@ == "clean"@,
                CargoSubcommand::Test(_) => name@ == "test"@,
                CargoSubcommand::Run(_) => name@ == "run"@,
                CargoSubcommand::Custom { name: n, .. } => name@ == n@,
            },
    {
        let w = self.workdir.as_str();
        match subcommand {
            CargoSubcommand::Add(o) => {
                if o.packages.len() == 0 {
                    return Err(owned("cargo add requires at least one package"));
                }
                let c = CargoCommand::new(w, "add").apply_options(&o.cargo).args(&o.packages);
                Ok((owned("add"), c))
            },
            CargoSubcommand::Remove(o) => {
                if o.packages.len() == 0 {
                    return Err(owned("cargo remove requires at least one package"));
                }
                let c = CargoCommand::new(w, "remove").apply_options(&o.cargo).args(&o.packages);
                Ok((owned("remove"), c))
            },
            CargoSubcommand::Build(o) => Ok((owned("build"), CargoCommand::new(w, "build").apply_options(&o.cargo))),
            CargoSubcommand::Clean(o) => Ok((owned("clean"), CargoCommand::new(w, "clean").apply_options(&o.cargo))),
            CargoSubcommand::Test(o) => Ok((owned("test"), CargoCommand::new(w, "test").apply_options(&o.cargo))),
            CargoSubcommand::Run(o) => {
                let c = CargoCommand::new(w, "run").apply_options(&o.cargo).app_args(&o.app_args);
                Ok((owned("run"), c))
            },
            CargoSubcommand::Custom { name, cargo } => {
                let c = CargoCommand::new(w, name.as_str()).apply_options(cargo);
                Ok((owned(name.as_str()), c))
            },
        }
    }
}

} // verus!
