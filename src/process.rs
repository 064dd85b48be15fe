//! A description of a child process to run: command, arguments, working
//! directory and environment.
use vstd::prelude::*;
use vstd::string::*;
use crate::actor::texts;
use crate::assoc::pairs_view;

verus! {

/// A process to start.
#[derive(Debug)]
pub struct Process {
    pub command: String,
    pub args: Vec<String>,
    pub cwd: Option<String>,
    pub envs: Vec<(String, String)>,
}

impl Process {
    pub fn new(command: &str) -> (r: Self)
        ensures
            r.command@ == command@,
            r.args@.len() == 0,
            r.cwd is None,
            r.envs@.len() == 0,
    {
        Process { command: String::from_str(command), args: Vec::new(), cwd: None, envs: Vec::new() }
    }

    /// Adds one argument.
    pub fn arg(self, arg: &str) -> (r: Self)
        ensures
            r.command == self.command,
            texts(r.args@) == texts(self.args@).push(arg@),
            r.cwd == self.cwd,
            r.envs == self.envs,
    {
        let mut s = self;
        let ghost before = s.args@;
        s.args.push(String::from_str(arg));
        assert(texts(s.args@) =~= texts(before).push(arg@));
        s
    }

    /// Adds arguments, in order.
    pub fn args(self, args: &[&str]) -> (r: Self)
        ensures
            r.command == self.command,
            texts(r.args@) == texts(self.args@) + args@.map_values(|a: &str| a@),
            r.cwd == self.cwd,
            r.envs == self.envs,
    {
        let mut s = self;
        let ghost before = texts(s.args@);
        let mut i: usize = 0;
        while i < args.len()
            invariant
                i <= args@.len(),
                s.command == self.command,
                s.cwd == self.cwd,
                s.envs == self.envs,
                texts(s.args@) == before + args@.subrange(0, i as int).map_values(|a: &str| a@),
            decreases args.len() - i,
        {
            let ghost mid = s.args@;
            s.args.push(String::from_str(args[i]));
            assert(texts(s.args@) =~= texts(mid).push(args@[i as int]@));
            assert(args@.subrange(0, i + 1).map_values(|a: &str| a@) =~= args@.subrange(
                0,
                i as int,
            ).map_values(|a: &str| a@).push(args@[i as int]@));
            i += 1;
        }
        assert(args@.subrange(0, i as int) =~= args@);
        s
    }

    /// Runs the process in `dir`.
    pub fn current_dir(self, dir: &str) -> (r: Self)
        ensures
            r.command == self.command,
            r.args == self.args,
            r.cwd matches Some(d) && d@ == dir@,
            r.envs == self.envs,
    {
        let mut s = self;
        s.cwd = Some(String::from_str(dir));
        s
    }

    /// Sets an environment variable for the process.
    pub fn env(self, key: &str, val: &str) -> (r: Self)
        ensures
            r.command == self.command,
            r.args == self.args,
            r.cwd == self.cwd,
            pairs_view(r.envs@) == pairs_view(self.envs@).push((key@, val@)),
    {
        let mut s = self;
        let ghost before = s.envs@;
        s.envs.push((String::from_str(key), String::from_str(val)));
        assert(pairs_view(s.envs@) =~= pairs_view(before).push((key@, val@)));
        s
    }

    /// The process that runs `script` through the platform shell: `sh -c`,
    /// or `cmd /C` on Windows, optionally in `cwd`.
    pub fn run_script(script: &str, cwd: Option<&str>, windows: bool) -> (r: Self)
        ensures
            r.command@ == (if windows {
                "cmd"@
            } else {
                "sh"@
            }),
            texts(r.args@) == seq![
                if windows {
                    "/C"@
                } else {
                    "-c"@
                },
                script@,
            ],
            match cwd {
                Some(d) => r.cwd matches Some(c) && c@ == d@,
                None => r.cwd is None,
            },
            r.envs@.len() == 0,
    {
        let (shell, flag) = if windows {
            ("cmd", "/C")
        } else {
            ("sh", "-c")
        };
        let p = Process::new(shell).arg(flag).arg(script);
        assert(texts(p.args@) =~= seq![flag@, script@]);
        match cwd {
            Some(d) => p.current_dir(d),
            None => p,
        }
    }
}

} // verus!
