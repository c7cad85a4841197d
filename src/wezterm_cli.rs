//! Command lines for the wezterm terminal's remote control interface. Running
//! them is the caller's part; this module says which arguments they take.
use crate::text::to_decimal;
use vstd::prelude::*;

verus! {

pub open spec fn texts(v: Seq<String>) -> Seq<Seq<char>> {
    v.map_values(|s: String| s@)
}

/// Appends a copy of `t` to `v`.
fn push_text(v: &mut Vec<String>, t: &str)
    ensures
        texts(final(v)@) == texts(old(v)@).push(t@),
{
    v.push(t.to_owned());
    assert forall|j: int| 0 <= j < v@.len() implies #[trigger] texts(v@)[j] == texts(old(v)@).push(
        t@,
    )[j] by {
        if j < old(v)@.len() {
            assert(v@[j] == old(v)@[j]);
        }
    }
    assert(texts(v@) =~= texts(old(v)@).push(t@));
}

/// Appends copies of the strings of `b` to `a`.
fn extend(a: &mut Vec<String>, b: &Vec<String>)
    ensures
        texts(final(a)@) == texts(old(a)@) + texts(b@),
{
    let mut i: usize = 0;
    while i < b.len()
        invariant
            i <= b@.len(),
            texts(a@) == texts(old(a)@) + texts(b@.subrange(0, i as int)),
        decreases b.len() - i,
    {
        push_text(a, b[i].as_str());
        i += 1;
        assert(texts(b@.subrange(0, i as int)) =~= texts(b@.subrange(0, i as int - 1)).push(b@[i - 1]@));
        assert(texts(a@) =~= texts(old(a)@) + texts(b@.subrange(0, i as int)));
    }
    assert(b@.subrange(0, b@.len() as int) =~= b@);
}

/// `--cwd dir`.
pub fn current_dir_vec(dir: &str) -> (r: Vec<String>)
    ensures
        texts(r@) == seq!["--cwd"@, dir@],
{
    let mut r = Vec::new();
    push_text(&mut r, "--cwd");
    push_text(&mut r, dir);
    assert(texts(r@) =~= seq!["--cwd"@, dir@]);
    r
}

/// `shell -c cmd`: the command runs in the user's shell, with the user's settings.
pub fn wrap_in_shell(shell_cmd: &str, cmd: &str) -> (r: Vec<String>)
    ensures
        texts(r@) == seq![shell_cmd@, "-c"@, cmd@],
{
    let mut r = Vec::new();
    push_text(&mut r, shell_cmd);
    push_text(&mut r, "-c");
    push_text(&mut r, cmd);
    assert(texts(r@) =~= seq![shell_cmd@, "-c"@, cmd@]);
    r
}

/// `--pane-id id`.
pub fn pane_id_vec(id: &str) -> (r: Vec<String>)
    ensures
        texts(r@) == seq!["--pane-id"@, id@],
{
    let mut r = Vec::new();
    push_text(&mut r, "--pane-id");
    push_text(&mut r, id);
    assert(texts(r@) =~= seq!["--pane-id"@, id@]);
    r
}

/// The whole command line for the remote control subcommand `args`.
pub fn wt_cli_args(args: &Vec<String>) -> (r: Vec<String>)
    ensures
        texts(r@) == seq!["wezterm"@, "cli"@] + texts(args@),
{
    let mut r = Vec::new();
    push_text(&mut r, "wezterm");
    push_text(&mut r, "cli");
    assert(texts(r@) =~= seq!["wezterm"@, "cli"@]);
    extend(&mut r, args);
    r
}

/// The remote control interface.
pub struct WTCli {}

impl WTCli {
    pub fn new() -> (r: Self) {
        WTCli {}
    }

    /// The subcommand that opens a pane in `cwd` running `cmd` in `shell`.
    pub fn spawn(&self, cwd: &str, shell: &str, cmd: &str) -> (r: Vec<String>)
        ensures
            texts(r@) == seq!["spawn"@, "--cwd"@, cwd@, shell@, "-c"@, cmd@],
    {
        let mut r = Vec::new();
        push_text(&mut r, "spawn");
        assert(texts(r@) =~= seq!["spawn"@]);
        extend(&mut r, &current_dir_vec(cwd));
        extend(&mut r, &wrap_in_shell(shell, cmd));
        assert(texts(r@) =~= seq!["spawn"@, "--cwd"@, cwd@, shell@, "-c"@, cmd@]);
        r
    }
}

/// A pane, by its id.
pub struct WTPane {
    pub id: String,
}

/// The options of a pane split, gathered before the split is made.
pub struct SplitOptsBuilder {
    pub id: String,
    pub cmd: String,
    pub opts: Vec<String>,
}

impl SplitOptsBuilder {
    /// The new pane takes `percentage` percent of the space.
    pub fn percent(self, percentage: u32) -> (r: SplitOptsBuilder)
        ensures
            r.id == self.id,
            r.cmd == self.cmd,
            texts(r.opts@) == texts(self.opts@) + seq!["--percent"@, crate::text::decimal(percentage as nat)],
    {
        let mut s = self;
        s.opts.push("--percent".to_owned());
        s.opts.push(to_decimal(percentage));
        assert(texts(s.opts@) =~= texts(self.opts@) + seq!["--percent"@, crate::text::decimal(percentage as nat)]);
        s
    }

    /// The new pane goes below.
    pub fn bottom(self) -> (r: SplitOptsBuilder)
        ensures
            r.id == self.id,
            r.cmd == self.cmd,
            texts(r.opts@) == texts(self.opts@).push("--bottom"@),
    {
        let mut s = self;
        s.opts.push("--bottom".to_owned());
        assert(texts(s.opts@) =~= texts(self.opts@).push("--bottom"@));
        s
    }

    /// The new pane goes to the right.
    pub fn right(self) -> (r: SplitOptsBuilder)
        ensures
            r.id == self.id,
            r.cmd == self.cmd,
            texts(r.opts@) == texts(self.opts@).push("--right"@),
    {
        let mut s = self;
        s.opts.push("--right".to_owned());
        assert(texts(s.opts@) =~= texts(self.opts@).push("--right"@));
        s
    }

    /// The whole window is split, not only this pane.
    pub fn top_level(self) -> (r: SplitOptsBuilder)
        ensures
            r.id == self.id,
            r.cmd == self.cmd,
            texts(r.opts@) == texts(self.opts@).push("--top-level"@),
    {
        let mut s = self;
        s.opts.push("--top-level".to_owned());
        assert(texts(s.opts@) =~= texts(self.opts@).push("--top-level"@));
        s
    }

    /// The options gathered so far.
    pub fn as_vec(&self) -> (r: Vec<String>)
        ensures
            texts(r@) == texts(self.opts@),
    {
        let mut r: Vec<String> = Vec::new();
        extend(&mut r, &self.opts);
        assert(texts(r@) =~= texts(self.opts@));
        r
    }

    /// The subcommand that makes the split, with the new pane in `cwd` running the command in `shell`.
    pub fn exec(&self, cwd: &str, shell: &str) -> (r: Vec<String>)
        ensures
            texts(r@) == seq!["split-pane"@, "--pane-id"@, self.id@, "--cwd"@, cwd@] + texts(
                self.opts@,
            ) + seq![shell@, "-c"@, self.cmd@],
    {
        let mut r = Vec::new();
        push_text(&mut r, "split-pane");
        assert(texts(r@) =~= seq!["split-pane"@]);
        extend(&mut r, &pane_id_vec(self.id.as_str()));
        extend(&mut r, &current_dir_vec(cwd));
        extend(&mut r, &self.opts);
        extend(&mut r, &wrap_in_shell(shell, self.cmd.as_str()));
        assert(texts(r@) =~= seq!["split-pane"@, "--pane-id"@, self.id@, "--cwd"@, cwd@] + texts(
            self.opts@,
        ) + seq![shell@, "-c"@, self.cmd@]);
        r
    }
}

impl WTPane {
    /// A split of this pane that will run `cmd`, with no options yet.
    pub fn split(&self, cmd: &str) -> (r: SplitOptsBuilder)
        ensures
            r.id@ == self.id@,
            r.cmd@ == cmd@,
            r.opts@.len() == 0,
    {
        SplitOptsBuilder { id: self.id.clone(), cmd: cmd.to_owned(), opts: Vec::new() }
    }

    /// The subcommand that gives this pane the focus.
    pub fn activate(&self) -> (r: Vec<String>)
        ensures
            texts(r@) == seq!["activate-pane"@, "--pane-id"@, self.id@],
    {
        let mut r = Vec::new();
        push_text(&mut r, "activate-pane");
        assert(texts(r@) =~= seq!["activate-pane"@]);
        extend(&mut r, &pane_id_vec(self.id.as_str()));
        assert(texts(r@) =~= seq!["activate-pane"@, "--pane-id"@, self.id@]);
        r
    }

    /// The subcommand that closes this pane.
    pub fn kill(&self) -> (r: Vec<String>)
        ensures
            texts(r@) == seq!["kill-pane"@, "--pane-id"@, self.id@],
    {
        let mut r = Vec::new();
        push_text(&mut r, "kill-pane");
        assert(texts(r@) =~= seq!["kill-pane"@]);
        extend(&mut r, &pane_id_vec(self.id.as_str()));
        assert(texts(r@) =~= seq!["kill-pane"@, "--pane-id"@, self.id@]);
        r
    }
}

} // verus!
