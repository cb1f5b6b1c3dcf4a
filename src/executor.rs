use vstd::prelude::*;
use crate::bytes::copy_bytes;
use vstd::string::{StrSliceExecFns, StringSliceAdditionalSpecFns};

verus! {

/// Search path given to every launched program.
pub const DEFAULT_PATH: &'static str = "/usr/local/sbin:/usr/local/bin:/usr/sbin:/usr/bin:/sbin:/bin";

/// Prompt given to a login shell.
pub const LOGIN_PROMPT: &'static str = "\\u@\\h: \\w\\$ ";

/// Everything needed to replace the process image: the program, its argument
/// vector (the program's own name first), the whole environment and the
/// working directory. Nothing of the invoker's environment is carried over.
pub struct Launch {
    pub program: Vec<u8>,
    pub argv: Vec<Vec<u8>>,
    pub env: Vec<(Vec<u8>, Vec<u8>)>,
    pub cwd: Vec<u8>,
}

pub open spec fn pair_view(p: (Vec<u8>, Vec<u8>)) -> (Seq<u8>, Seq<u8>) {
    (p.0@, p.1@)
}

pub open spec fn env_view(env: Seq<(Vec<u8>, Vec<u8>)>) -> Seq<(Seq<u8>, Seq<u8>)> {
    env.map_values(|p: (Vec<u8>, Vec<u8>)| pair_view(p))
}

pub open spec fn argv_view(argv: Seq<Vec<u8>>) -> Seq<Seq<u8>> {
    argv.map_values(|a: Vec<u8>| a@)
}

/// The fresh environment: HOME, USER, LOGNAME, SHELL and PATH, and for a
/// login shell also the prompt.
pub open spec fn environment_of(name: Seq<u8>, home: Seq<u8>, shell: Seq<u8>, login: bool) -> Seq<
    (Seq<u8>, Seq<u8>),
> {
    let base = seq![
        ("HOME".spec_bytes(), home),
        ("USER".spec_bytes(), name),
        ("LOGNAME".spec_bytes(), name),
        ("SHELL".spec_bytes(), shell),
        ("PATH".spec_bytes(), DEFAULT_PATH.spec_bytes()),
    ];
    if login {
        base.push(("PS1".spec_bytes(), LOGIN_PROMPT.spec_bytes()))
    } else {
        base
    }
}

/// Builds the environment for the target identity named `name`.
pub fn environment(name: &Vec<u8>, home: &Vec<u8>, shell: &Vec<u8>, login: bool) -> (env: Vec<
    (Vec<u8>, Vec<u8>),
>)
    ensures
        env_view(env@) == environment_of(name@, home@, shell@, login),
{
    let mut env: Vec<(Vec<u8>, Vec<u8>)> = Vec::new();
    env.push(("HOME".as_bytes_vec(), copy_bytes(home)));
    env.push(("USER".as_bytes_vec(), copy_bytes(name)));
    env.push(("LOGNAME".as_bytes_vec(), copy_bytes(name)));
    env.push(("SHELL".as_bytes_vec(), copy_bytes(shell)));
    env.push(("PATH".as_bytes_vec(), DEFAULT_PATH.as_bytes_vec()));
    if login {
        env.push(("PS1".as_bytes_vec(), LOGIN_PROMPT.as_bytes_vec()));
    }
    assert(env_view(env@) =~= environment_of(name@, home@, shell@, login));
    env
}

/// Runs `program` with `args` passed on verbatim, in the target's home.
pub fn command_launch(
    name: &Vec<u8>,
    home: &Vec<u8>,
    shell: &Vec<u8>,
    program: &Vec<u8>,
    args: &Vec<Vec<u8>>,
) -> (l: Launch)
    ensures
        l.program@ == program@,
        argv_view(l.argv@) == seq![program@] + argv_view(args@),
        env_view(l.env@) == environment_of(name@, home@, shell@, false),
        l.cwd@ == home@,
{
    let mut argv: Vec<Vec<u8>> = Vec::new();
    argv.push(copy_bytes(program));
    let mut i: usize = 0;
    while i < args.len()
        invariant
            0 <= i <= args@.len(),
            argv@.len() == i + 1,
            argv@[0]@ == program@,
            forall|j: int| 0 <= j < i ==> #[trigger] argv@[j + 1]@ == args@[j]@,
        decreases args@.len() - i,
    {
        argv.push(copy_bytes(&args[i]));
        i = i + 1;
    }
    let ghost want = seq![program@] + argv_view(args@);
    assert forall|j: int| 0 <= j < argv@.len() implies argv_view(argv@)[j] == want[j] by {
        if j > 0 {
            assert(argv@[(j - 1) + 1]@ == args@[j - 1]@);
        }
    }
    assert(argv_view(argv@) =~= want);
    Launch { program: copy_bytes(program), argv, env: environment(name, home, shell, false), cwd: copy_bytes(home) }
}

/// Starts the target's shell as a login shell in the target's home.
pub fn login_launch(name: &Vec<u8>, home: &Vec<u8>, shell: &Vec<u8>) -> (l: Launch)
    ensures
        l.program@ == shell@,
        argv_view(l.argv@) == seq![shell@, "-l".spec_bytes()],
        env_view(l.env@) == environment_of(name@, home@, shell@, true),
        l.cwd@ == home@,
{
    let mut argv: Vec<Vec<u8>> = Vec::new();
    argv.push(copy_bytes(shell));
    argv.push("-l".as_bytes_vec());
    assert(argv_view(argv@) =~= seq![shell@, "-l".spec_bytes()]);
    Launch { program: copy_bytes(shell), argv, env: environment(name, home, shell, true), cwd: copy_bytes(home) }
}

} // verus!
