//! The console session that the server, or the tunnel daemon, runs in.
//!
//! On Unix a session belongs to `tmux`, which keeps it when this program ends
//! and lets a second terminal attach to it. Elsewhere a session is a
//! pseudo-terminal of this program's own: it ends with it, and what it shows is
//! kept in a [`Scrollback`].
//!
//! Each operation gives the [`Step`] to take; for a `tmux` command, what came
//! of it is handed back to be judged.

use crate::text::{decimal, decimal_of, join, joined, trim, trimmed, views};
use vstd::prelude::*;
use vstd::string::*;
use vstd::utf8::{decode_utf8, encode_utf8, valid_utf8};

verus! {

/// What `String::from_utf8_lossy` makes of some bytes.
pub uninterp spec fn lossy_text(bytes: Seq<u8>) -> Seq<char>;

/// Calls `String::from_utf8_lossy` of std: the text depends on the bytes alone,
/// and bytes that are UTF-8 are the text that they encode.
#[verifier::external_body]
fn lossy_string(bytes: &[u8]) -> (r: String)
    ensures
        r@ == lossy_text(bytes@),
        valid_utf8(bytes@) ==> r@ == decode_utf8(bytes@),
{
    String::from_utf8_lossy(bytes).into_owned()
}

// ---------- Sessions ----------

/// What runs in a session.
#[derive(Debug, Clone, Copy)]
pub enum ConsoleRole {
    Server,
    Frpc,
}

/// Who keeps a session.
#[derive(Debug, Clone, Copy)]
pub enum Backend {
    Tmux,
    Pty,
}

/// A console session.
pub struct Console {
    /// The session's name, made of its role and of the server's directory.
    pub session_name: String,
    /// The directory that it works in.
    pub cwd: String,
    pub backend: Backend,
}

/// The rows of a new pseudo-terminal.
pub const PTY_ROWS: u16 = 40;

/// The columns of a new pseudo-terminal.
pub const PTY_COLS: u16 = 120;

/// What is to be done for an operation.
pub enum Step {
    /// Nothing.
    Done,
    /// Run `tmux` with these arguments.
    Tmux(Vec<String>),
    /// Open a pseudo-terminal and run a program in it with these arguments.
    Spawn(String, Vec<String>),
    /// Write these bytes to the pseudo-terminal.
    Write(Vec<u8>),
    /// Kill what runs in the pseudo-terminal, wait for its end, and let the
    /// terminal go.
    Kill,
    /// Show what the scrollback holds, or nothing where there is none.
    ShowScrollback,
    /// Give up, for this reason.
    Fail(String),
}

/// A [`Step`] with its words as text.
pub enum StepView {
    Done,
    Tmux(Seq<Seq<char>>),
    Spawn(Seq<char>, Seq<Seq<char>>),
    Write(Seq<u8>),
    Kill,
    ShowScrollback,
    Fail(Seq<char>),
}

impl View for Step {
    type V = StepView;

    open spec fn view(&self) -> StepView {
        match self {
            Step::Done => StepView::Done,
            Step::Tmux(args) => StepView::Tmux(views(args@)),
            Step::Spawn(program, args) => StepView::Spawn(program@, views(args@)),
            Step::Write(bytes) => StepView::Write(bytes@),
            Step::Kill => StepView::Kill,
            Step::ShowScrollback => StepView::ShowScrollback,
            Step::Fail(why) => StepView::Fail(why@),
        }
    }
}

/// What is known of a session.
#[derive(Debug, Clone, Copy)]
pub enum Probe {
    /// Whether `tmux` has it.
    Tmux(bool),
    /// No pseudo-terminal is held for it.
    NoPty,
    /// What runs in its pseudo-terminal still runs.
    Running,
    /// What ran in its pseudo-terminal has ended.
    Exited,
    /// What runs in its pseudo-terminal could not be asked after.
    Lost,
}

/// How long what runs in a session has to end after it was asked to, in
/// seconds.
pub const STOP_PATIENCE: u64 = 30;

/// What is to be done while a session is to end.
#[derive(Debug, Clone, Copy, PartialEq, Eq, Structural)]
pub enum Ending {
    /// It has ended.
    Ended,
    /// Wait a while, and ask after it again.
    Wait,
    /// End it by force.
    Kill,
}

/// A `tmux` command that was run.
#[derive(Debug, Clone, Copy)]
pub enum TmuxCommand {
    NewSession,
    SendKeys,
    KillSession,
}

/// The name of the session of a role, for a server directory that goes by
/// `slug`.
pub open spec fn session_name(role: ConsoleRole, slug: Seq<char>) -> Seq<char> {
    match role {
        ConsoleRole::Server => "shulker-"@ + slug,
        ConsoleRole::Frpc => "shulker-frpc-"@ + slug,
    }
}

/// A line as a console takes it: the text in UTF-8, a carriage return and a
/// line feed.
pub open spec fn console_line(text: Seq<char>) -> Seq<u8> {
    encode_utf8(text) + seq![13u8, 10u8]
}

/// The words of `words` as strings, copied.
fn copies(words: &[String], from: usize) -> (r: Vec<String>)
    requires
        from <= words@.len(),
    ensures
        views(r@) == views(words@).skip(from as int),
{
    let mut r: Vec<String> = Vec::new();
    let mut i: usize = from;
    assert(views(r@) =~= views(words@).subrange(from as int, from as int));
    while i < words.len()
        invariant
            from <= i <= words@.len(),
            views(r@) == views(words@).subrange(from as int, i as int),
        decreases words@.len() - i,
    {
        let ghost before = views(r@);
        r.push(words[i].clone());
        assert(views(r@) =~= before.push(words@[i as int]@));
        i += 1;
        assert(views(words@).subrange(from as int, i as int) =~= before.push(words@[i - 1]@));
    }
    assert(views(words@).subrange(from as int, i as int) =~= views(words@).skip(from as int));
    r
}

impl Console {
    /// The session of `role` for the server in `server_dir`, which goes by
    /// `slug`.
    pub fn new(role: ConsoleRole, slug: &str, server_dir: &str, backend: Backend) -> (r: Self)
        ensures
            r.session_name@ == session_name(role, slug@),
            r.cwd@ == server_dir@,
            r.backend == backend,
    {
        let session_name: String = match role {
            ConsoleRole::Server => "shulker-".to_owned().concat(slug),
            ConsoleRole::Frpc => "shulker-frpc-".to_owned().concat(slug),
        };
        Console { session_name, cwd: server_dir.to_owned(), backend }
    }

    /// The command that attaches a terminal to the session, where that can be
    /// done.
    pub fn attach_command(&self) -> (r: Option<String>)
        ensures
            match self.backend {
                Backend::Tmux => r matches Some(command) && command@ == "tmux attach -t "@
                    + self.session_name@,
                Backend::Pty => r is None,
            },
    {
        match self.backend {
            Backend::Tmux => Some(
                "tmux attach -t ".to_owned().concat(self.session_name.as_str()),
            ),
            Backend::Pty => None,
        }
    }

    /// Whether the session is alive. A pseudo-terminal that is not is to be let
    /// go.
    pub fn is_alive(&self, probe: Probe) -> (r: bool)
        ensures
            r == (probe == Probe::Tmux(true) || probe == Probe::Running),
    {
        match probe {
            Probe::Tmux(alive) => alive,
            Probe::Running => true,
            Probe::NoPty | Probe::Exited | Probe::Lost => false,
        }
    }

    /// Starts a program in the session; nothing is to be done where it is
    /// present: where `tmux` has it, or a pseudo-terminal is held for it. With
    /// `tmux` the words of `argv` go to a shell as they are, so they are to be
    /// quoted for it; a pseudo-terminal needs a program.
    pub fn start(&self, present: bool, argv: &[String]) -> (r: Step)
        requires
            !present && self.backend is Pty ==> argv@.len() > 0,
        ensures
            r@ == if present {
                StepView::Done
            } else {
                match self.backend {
                    Backend::Tmux => StepView::Tmux(
                        seq![
                            "new-session"@,
                            "-d"@,
                            "-s"@,
                            self.session_name@,
                            "-c"@,
                            self.cwd@,
                            joined(views(argv@), " "@),
                        ],
                    ),
                    Backend::Pty => StepView::Spawn(
                        argv@[0]@,
                        views(argv@).skip(1),
                    ),
                }
            },
    {
        if present {
            return Step::Done;
        }
        match self.backend {
            Backend::Tmux => {
                let mut args: Vec<String> = Vec::new();
                args.push("new-session".to_owned());
                args.push("-d".to_owned());
                args.push("-s".to_owned());
                args.push(self.session_name.clone());
                args.push("-c".to_owned());
                args.push(self.cwd.clone());
                args.push(join(argv, " "));
                assert(views(args@) =~= seq![
                    "new-session"@,
                    "-d"@,
                    "-s"@,
                    self.session_name@,
                    "-c"@,
                    self.cwd@,
                    joined(views(argv@), " "@),
                ]);
                Step::Tmux(args)
            },
            Backend::Pty => Step::Spawn(argv[0].clone(), copies(argv, 1)),
        }
    }

    /// What sending a line comes to.
    pub open spec fn line_step(self, present: bool, text: Seq<char>) -> StepView {
        match self.backend {
            Backend::Tmux => StepView::Tmux(
                seq!["send-keys"@, "-t"@, self.session_name@, text, "Enter"@],
            ),
            Backend::Pty => if present {
                StepView::Write(console_line(text))
            } else {
                StepView::Fail("console not running"@)
            },
        }
    }

    /// Sends a line to the session.
    pub fn send_line(&self, present: bool, text: &str) -> (r: Step)
        ensures
            r@ == self.line_step(present, text@),
    {
        match self.backend {
            Backend::Tmux => {
                let mut args: Vec<String> = Vec::new();
                args.push("send-keys".to_owned());
                args.push("-t".to_owned());
                args.push(self.session_name.clone());
                args.push(text.to_owned());
                args.push("Enter".to_owned());
                assert(views(args@) =~= seq![
                    "send-keys"@,
                    "-t"@,
                    self.session_name@,
                    text@,
                    "Enter"@,
                ]);
                Step::Tmux(args)
            },
            Backend::Pty => {
                if present {
                    let mut bytes: Vec<u8> = text.as_bytes_vec();
                    bytes.push(13);
                    bytes.push(10);
                    assert(bytes@ =~= console_line(text@));
                    Step::Write(bytes)
                } else {
                    Step::Fail("console not running".to_owned())
                }
            },
        }
    }

    /// Asks for the last `lines` rows that the session showed; a
    /// pseudo-terminal's scrollback is shown whole.
    pub fn capture_recent(&self, lines: u32) -> (r: Step)
        ensures
            r@ == match self.backend {
                Backend::Tmux => StepView::Tmux(
                    seq![
                        "capture-pane"@,
                        "-t"@,
                        self.session_name@,
                        "-p"@,
                        "-S"@,
                        "-"@ + decimal(lines as nat),
                    ],
                ),
                Backend::Pty => StepView::ShowScrollback,
            },
    {
        match self.backend {
            Backend::Tmux => {
                let mut args: Vec<String> = Vec::new();
                args.push("capture-pane".to_owned());
                args.push("-t".to_owned());
                args.push(self.session_name.clone());
                args.push("-p".to_owned());
                args.push("-S".to_owned());
                args.push("-".to_owned().concat(decimal_of(lines as u64).as_str()));
                assert(views(args@) =~= seq![
                    "capture-pane"@,
                    "-t"@,
                    self.session_name@,
                    "-p"@,
                    "-S"@,
                    "-"@ + decimal(lines as nat),
                ]);
                Step::Tmux(args)
            },
            Backend::Pty => Step::ShowScrollback,
        }
    }

    /// Asks what runs in the session to end, with a command of its own; nothing
    /// is to be done where nothing runs.
    pub fn stop_graceful(&self, present: bool, command: &str) -> (r: Step)
        ensures
            r@ == if present {
                self.line_step(true, command@)
            } else {
                StepView::Done
            },
    {
        if present {
            self.send_line(true, command)
        } else {
            Step::Done
        }
    }

    /// What is to be done `waited` seconds after what runs in the session was
    /// asked to end.
    pub fn stop_progress(&self, alive: bool, waited: u64) -> (r: Ending)
        ensures
            r == if !alive {
                Ending::Ended
            } else if waited < STOP_PATIENCE {
                Ending::Wait
            } else {
                Ending::Kill
            },
    {
        if !alive {
            Ending::Ended
        } else if waited < STOP_PATIENCE {
            Ending::Wait
        } else {
            Ending::Kill
        }
    }

    /// Ends the session by force; nothing is to be done where nothing runs.
    pub fn kill_session(&self, present: bool) -> (r: Step)
        ensures
            r@ == if present {
                match self.backend {
                    Backend::Tmux => StepView::Tmux(
                        seq!["kill-session"@, "-t"@, self.session_name@],
                    ),
                    Backend::Pty => StepView::Kill,
                }
            } else {
                StepView::Done
            },
    {
        if !present {
            return Step::Done;
        }
        match self.backend {
            Backend::Tmux => {
                let mut args: Vec<String> = Vec::new();
                args.push("kill-session".to_owned());
                args.push("-t".to_owned());
                args.push(self.session_name.clone());
                assert(views(args@) =~= seq!["kill-session"@, "-t"@, self.session_name@]);
                Step::Tmux(args)
            },
            Backend::Pty => Step::Kill,
        }
    }

    /// Judges a `tmux` command that was run.
    pub fn tmux_outcome(&self, command: TmuxCommand, success: bool) -> (r: Result<(), String>)
        ensures
            match r {
                Ok(_) => success,
                Err(why) => !success && why@ == match command {
                    TmuxCommand::NewSession => "tmux new-session failed for "@ + self.session_name@,
                    TmuxCommand::SendKeys => "tmux send-keys failed"@,
                    TmuxCommand::KillSession => "tmux kill-session failed"@,
                },
            },
    {
        if success {
            return Ok(());
        }
        Err(
            match command {
                TmuxCommand::NewSession => "tmux new-session failed for ".to_owned().concat(
                    self.session_name.as_str(),
                ),
                TmuxCommand::SendKeys => "tmux send-keys failed".to_owned(),
                TmuxCommand::KillSession => "tmux kill-session failed".to_owned(),
            },
        )
    }
}

/// The rows that `tmux` gave, or why it gave none.
pub fn captured(success: bool, stdout: &[u8], stderr: &[u8]) -> (r: Result<String, String>)
    ensures
        match r {
            Ok(rows) => success && rows@ == lossy_text(stdout@) && (valid_utf8(stdout@) ==> rows@
                == decode_utf8(stdout@)),
            Err(why) => !success && why@ == "tmux capture-pane failed: "@ + trimmed(
                lossy_text(stderr@),
            ),
        },
{
    if success {
        Ok(lossy_string(stdout))
    } else {
        let said: String = trim(lossy_string(stderr).as_str());
        Err("tmux capture-pane failed: ".to_owned().concat(said.as_str()))
    }
}

// ---------- Scrollback ----------

/// The bytes that a scrollback keeps.
pub const MAX_BUFFER: usize = 262144;

/// The end of `s`, as much as a scrollback keeps.
pub open spec fn kept(s: Seq<u8>) -> Seq<u8> {
    if s.len() > MAX_BUFFER {
        s.skip(s.len() - MAX_BUFFER)
    } else {
        s
    }
}

/// The last bytes that a session showed.
pub struct Scrollback {
    bytes: Vec<u8>,
}

impl View for Scrollback {
    type V = Seq<u8>;

    closed spec fn view(&self) -> Seq<u8> {
        self.bytes@
    }
}

impl Scrollback {
    #[verifier::type_invariant]
    spec fn bounded(self) -> bool {
        self.bytes@.len() <= MAX_BUFFER
    }

    /// A scrollback with nothing in it.
    pub fn new() -> (r: Self)
        ensures
            r@ == Seq::<u8>::empty(),
    {
        Scrollback { bytes: Vec::new() }
    }

    /// Adds what the session showed, and forgets the oldest bytes that there is
    /// no more room for.
    pub fn push_chunk(&mut self, chunk: &[u8])
        ensures
            final(self)@ == kept(old(self)@ + chunk@),
            final(self)@.len() <= MAX_BUFFER,
    {
        let mut all: Vec<u8> = Vec::new();
        std::mem::swap(&mut all, &mut self.bytes);
        all.extend_from_slice(chunk);
        assert(all@ =~= old(self)@ + chunk@);
        if all.len() > MAX_BUFFER {
            let drop: usize = all.len() - MAX_BUFFER;
            let tail: Vec<u8> = all.split_off(drop);
            assert(tail@ =~= kept(old(self)@ + chunk@));
            self.bytes = tail;
        } else {
            self.bytes = all;
        }
    }

    /// What the scrollback holds, as text.
    pub fn text(&self) -> (r: String)
        ensures
            r@ == lossy_text(self@),
            valid_utf8(self@) ==> r@ == decode_utf8(self@),
    {
        lossy_string(self.bytes.as_slice())
    }
}

// ---------- Laws ----------

/// How a session's output is cut into chunks does not matter: two chunks leave
/// what one of both would.
pub proof fn law_chunks_add_up(shown: Seq<u8>, a: Seq<u8>, b: Seq<u8>)
    ensures
        kept(kept(shown + a) + b) == kept(shown + (a + b)),
{
    assert(kept(kept(shown + a) + b) =~= kept(shown + (a + b)));
}

/// What a scrollback holds is always the end of what it was given.
pub proof fn law_scrollback_is_the_end(shown: Seq<u8>)
    ensures
        kept(shown).is_suffix_of(shown),
        kept(shown).len() == if shown.len() <= MAX_BUFFER { shown.len() as int } else { MAX_BUFFER as int },
{
}

/// The server's and the daemon's sessions for the same directory have different
/// names.
pub proof fn law_roles_have_their_own_sessions(slug: Seq<char>)
    ensures
        session_name(ConsoleRole::Server, slug) != session_name(ConsoleRole::Frpc, slug),
{
    reveal_strlit("shulker-");
    reveal_strlit("shulker-frpc-");
    assert(session_name(ConsoleRole::Server, slug).len() != session_name(
        ConsoleRole::Frpc,
        slug,
    ).len());
}

} // verus!
