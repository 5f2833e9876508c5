//! `accessforge init`: the questions that build a new manifest, how each
//! answer is read and checked, and the order they come in.
use vstd::prelude::*;

use crate::devtools::{init_manifest_yaml, init_manifest_yaml_spec, parse_github_url, parse_github_url_spec};
use crate::manifest::{loader_kind_of, parse_source_spec, LoaderKind, Source};
use crate::messages::{source_error_message, source_error_text};
use crate::mods_list::{trim_chars, trim_ws};
use crate::text::{chars_of, decimal_spec, push_decimal, push_str, str_eq, string_of};

verus! {

/// The value of decimal digits.
pub open spec fn digits_value(d: Seq<char>) -> nat
    decreases d.len(),
{
    if d.len() == 0 {
        0
    } else {
        digits_value(d.drop_last()) * 10 + (d.last() as nat - '0' as nat) as nat
    }
}

/// Every character is an ASCII digit.
pub open spec fn all_digits(d: Seq<char>) -> bool {
    forall|i: int| 0 <= i < d.len() ==> '0' <= #[trigger] d[i] <= '9'
}

/// What `str::parse::<u32>` gives: an optional `+`, then one or more ASCII
/// digits whose value fits in 32 bits.
pub open spec fn parse_u32_spec(s: Seq<char>) -> Option<u32> {
    let d = if s.len() > 0 && s[0] == '+' {
        s.skip(1)
    } else {
        s
    };
    if d.len() > 0 && all_digits(d) && digits_value(d) <= u32::MAX {
        Some(digits_value(d) as u32)
    } else {
        None
    }
}

/// Read `s` as a 32-bit unsigned number, as `str::parse::<u32>` does.
pub fn parse_u32(s: &str) -> (r: Option<u32>)
    ensures
        r == parse_u32_spec(s@),
{
    let v = chars_of(s);
    let start: usize = if v.len() > 0 && v[0] == '+' {
        1
    } else {
        0
    };
    let ghost d = v@.skip(start as int);
    assert(d =~= (if s@.len() > 0 && s@[0] == '+' {
        s@.skip(1)
    } else {
        s@
    }));
    if start >= v.len() {
        return None;
    }
    let mut value: u64 = 0;
    let mut i = start;
    while i < v.len()
        invariant
            start <= i <= v@.len(),
            d == v@.skip(start as int),
            d == (if s@.len() > 0 && s@[0] == '+' {
                s@.skip(1)
            } else {
                s@
            }),
            d.len() > 0,
            v@ == s@,
            value == digits_value(v@.subrange(start as int, i as int)),
            value <= u32::MAX,
            all_digits(v@.subrange(start as int, i as int)),
        decreases v.len() - i,
    {
        let c = v[i];
        let ghost prefix = v@.subrange(start as int, i + 1);
        assert(prefix.drop_last() =~= v@.subrange(start as int, i as int));
        if c < '0' || c > '9' {
            assert(!all_digits(d)) by {
                assert(d[i - start] == c);
            }
            return None;
        }
        let digit: u64 = (c as u32 - '0' as u32) as u64;
        value = value * 10 + digit;
        assert(all_digits(prefix));
        if value > u32::MAX as u64 {
            proof {
                if all_digits(d) {
                    lemma_digits_value_grows(d, i + 1 - start);
                    assert(d.take(i + 1 - start) =~= prefix);
                }
            }
            return None;
        }
        i = i + 1;
    }
    assert(v@.subrange(start as int, v@.len() as int) =~= d);
    Some(value as u32)
}

/// The value of a longer run of digits is at least that of its prefix.
pub proof fn lemma_digits_value_grows(d: Seq<char>, k: int)
    requires
        0 <= k <= d.len(),
        all_digits(d),
    ensures
        digits_value(d.take(k)) <= digits_value(d),
    decreases d.len(),
{
    if k < d.len() {
        assert(d.drop_last().take(k) =~= d.take(k));
        lemma_digits_value_grows(d.drop_last(), k);
        assert(digits_value(d) >= digits_value(d.drop_last()));
    } else {
        assert(d.take(k) =~= d);
    }
}

/// The answer given to a prompt: the line read, trimmed; the default (or
/// nothing) when that is empty.
pub open spec fn answer_value(raw: Seq<char>, default: Option<Seq<char>>) -> Seq<char> {
    let t = trim_ws(raw);
    if t.len() == 0 {
        match default {
            Some(d) => d,
            None => Seq::empty(),
        }
    } else {
        t
    }
}

/// The prompt printed before reading an answer: `label [default]: ` or `label: `.
pub open spec fn prompt_text_spec(label: Seq<char>, default: Option<Seq<char>>) -> Seq<char> {
    match default {
        Some(d) => label + " ["@ + d + "]: "@,
        None => label + ": "@,
    }
}

/// The prompt printed before reading an answer.
pub fn prompt_text(label: &str, default: Option<&str>) -> (r: String)
    ensures
        r@ == prompt_text_spec(
            label@,
            match default {
                Some(d) => Some(d@),
                None => None,
            },
        ),
{
    let mut t = String::new();
    push_str(&mut t, label);
    match default {
        Some(d) => {
            push_str(&mut t, " [");
            push_str(&mut t, d);
            push_str(&mut t, "]: ");
        },
        None => {
            push_str(&mut t, ": ");
        },
    }
    t
}

/// The questions `init` asks.
#[derive(Debug, Clone, Copy, PartialEq, Eq, Structural)]
pub enum Question {
    Store,
    SteamId,
    Confirm,
    TryAnother,
    GameName,
    GamePath,
    Loader,
    ModName,
    Description,
    Author,
    Source,
}

/// What `init` knows so far, as character sequences.
#[verifier::ext_equal]
pub struct InitView {
    pub dir: Seq<char>,
    pub manifest_path: Seq<char>,
    pub steam_id: Option<u32>,
    pub found_name: Seq<char>,
    pub name_default: Option<Seq<char>>,
    pub path: Seq<char>,
    pub game_name: Seq<char>,
    pub loader: Seq<char>,
    pub mod_name: Seq<char>,
    pub description: Seq<char>,
    pub git_owner: Option<Seq<char>>,
    pub git_repo: Option<Seq<char>>,
    pub git_user: Option<Seq<char>>,
    pub author: Seq<char>,
    pub source: Seq<char>,
    pub yaml: Seq<char>,
}

/// What `init` waits for.
pub enum InitStage {
    /// The answer to a question.
    Asking(Question),
    /// The Steam lookup of the chosen app id.
    SteamLookup,
    /// Whether the chosen game folder is a directory.
    DirCheck,
    /// The git remote and user name.
    Git,
    /// Whether the manifest text parses and validates.
    Check,
    /// The manifest file written.
    Write,
    /// Nothing: `init` is over.
    Done,
}

/// The label and default of a question.
pub open spec fn question_prompt(q: Question, v: InitView) -> (Seq<char>, Option<Seq<char>>) {
    match q {
        Question::Store => ("Store (steam/none)"@, Some("none"@)),
        Question::SteamId => ("Steam app ID"@, None),
        Question::Confirm => ("Is this correct? (yes/no)"@, Some("yes"@)),
        Question::TryAnother => ("Try another ID? (yes/no)"@, Some("yes"@)),
        Question::GameName => ("Game name"@, v.name_default),
        Question::GamePath => ("Game folder path"@, None),
        Question::Loader => ("Loader (ue4ss/bepinex/melonloader/none)"@, Some("none"@)),
        Question::ModName => ("Mod name"@, Some(v.game_name + " Access"@)),
        Question::Description => (
            "Description"@,
            Some("Screen reader accessibility mod for "@ + v.game_name),
        ),
        Question::Author => ("Author"@, if v.git_user is Some {
            v.git_user
        } else {
            v.git_owner
        }),
        Question::Source => match (v.git_owner, v.git_repo) {
            (Some(o), Some(r)) => ("Source"@, Some("github:"@ + o + "/"@ + r)),
            _ => ("Source (github:owner/repo or url:https://...)"@, None),
        },
    }
}

/// Why an answer is refused, if it is.
pub open spec fn answer_problem(q: Question, a: Seq<char>) -> Option<Seq<char>> {
    match q {
        Question::Store => if a == "steam"@ || a == "none"@ {
            None
        } else {
            Some("Must be 'steam' or 'none'."@)
        },
        Question::SteamId => if parse_u32_spec(a) is Some {
            None
        } else {
            Some("Must be a number."@)
        },
        Question::Confirm | Question::TryAnother => if a == "yes"@ || a == "no"@ {
            None
        } else {
            Some("Please enter 'yes' or 'no'."@)
        },
        Question::GameName => if a.len() == 0 {
            Some("Game name cannot be empty."@)
        } else {
            None
        },
        Question::GamePath => if a.len() == 0 {
            Some("Path cannot be empty."@)
        } else {
            None
        },
        Question::Loader => if loader_kind_of(a) is Some {
            None
        } else {
            Some("Must be one of: ue4ss, bepinex, melonloader, none"@)
        },
        Question::ModName => if a.len() == 0 {
            Some("Mod name cannot be empty."@)
        } else {
            None
        },
        Question::Description => if a.len() == 0 {
            Some("Description cannot be empty."@)
        } else {
            None
        },
        Question::Author => if a.len() == 0 {
            Some("Author cannot be empty."@)
        } else {
            None
        },
        Question::Source => match parse_source_spec(a) {
            Ok(_) => None,
            Err(e) => Some(source_error_text(e, a)),
        },
    }
}

/// What `init` asks for next, as sequences.
pub enum InitRequestSpec {
    Ask(Seq<char>, Option<Seq<char>>),
    LookupSteam(u32),
    CheckDir(Seq<char>),
    DetectGit,
    Check(Seq<char>),
    Write(Seq<char>),
    Finished,
}

/// One step of `init`: the lines it prints, where it then stands, what it
/// asks for, and how it ended once it is over.
pub struct InitTransition {
    pub lines: Seq<Seq<char>>,
    pub stage: InitStage,
    pub view: InitView,
    pub request: InitRequestSpec,
    pub outcome: Option<Result<(), Seq<char>>>,
}

/// Print `lines`, then ask question `q`.
pub open spec fn ask_next(lines: Seq<Seq<char>>, q: Question, v: InitView) -> InitTransition {
    InitTransition {
        lines,
        stage: InitStage::Asking(q),
        view: v,
        request: InitRequestSpec::Ask(question_prompt(q, v).0, question_prompt(q, v).1),
        outcome: None,
    }
}

/// Print `lines`, then wait in `stage` for `request`.
pub open spec fn wait_for(
    lines: Seq<Seq<char>>,
    stage: InitStage,
    v: InitView,
    request: InitRequestSpec,
) -> InitTransition {
    InitTransition { lines, stage, view: v, request, outcome: None }
}

/// Print `lines` and end with `outcome`.
pub open spec fn end_with(lines: Seq<Seq<char>>, v: InitView, outcome: Result<(), Seq<char>>) -> InitTransition {
    InitTransition {
        lines,
        stage: InitStage::Done,
        view: v,
        request: InitRequestSpec::Finished,
        outcome: Some(outcome),
    }
}

/// The manifest text from the answers.
pub open spec fn manifest_of(v: InitView) -> Seq<char> {
    init_manifest_yaml_spec(
        v.mod_name,
        v.description,
        v.author,
        v.source,
        v.game_name,
        v.steam_id,
        v.loader,
    )
}

/// After an accepted answer `a` to question `q`.
pub open spec fn accept(q: Question, a: Seq<char>, v: InitView) -> InitTransition {
    match q {
        Question::Store => if a == "steam"@ {
            ask_next(Seq::empty(), Question::SteamId, v)
        } else {
            ask_next(Seq::empty(), Question::GamePath, v)
        },
        Question::SteamId => {
            let id = parse_u32_spec(a)->Some_0;
            wait_for(
                Seq::empty(),
                InitStage::SteamLookup,
                InitView { steam_id: Some(id), ..v },
                InitRequestSpec::LookupSteam(id),
            )
        },
        Question::Confirm => if a == "yes"@ {
            ask_next(
                Seq::empty(),
                Question::GameName,
                InitView { name_default: Some(v.found_name), ..v },
            )
        } else {
            ask_next(seq!["Let's try again."@], Question::SteamId, v)
        },
        Question::TryAnother => if a == "no"@ {
            ask_next(Seq::empty(), Question::GameName, InitView { name_default: None, ..v })
        } else {
            ask_next(Seq::empty(), Question::SteamId, v)
        },
        Question::GameName => ask_next(
            Seq::empty(),
            Question::Loader,
            InitView { game_name: a, ..v },
        ),
        Question::GamePath => wait_for(
            Seq::empty(),
            InitStage::DirCheck,
            InitView { path: a, ..v },
            InitRequestSpec::CheckDir(a),
        ),
        Question::Loader => ask_next(Seq::empty(), Question::ModName, InitView { loader: a, ..v }),
        Question::ModName => ask_next(
            Seq::empty(),
            Question::Description,
            InitView { mod_name: a, ..v },
        ),
        Question::Description => wait_for(
            Seq::empty(),
            InitStage::Git,
            InitView { description: a, ..v },
            InitRequestSpec::DetectGit,
        ),
        Question::Author => ask_next(Seq::empty(), Question::Source, InitView { author: a, ..v }),
        Question::Source => {
            let w = InitView { source: a, ..v };
            let w2 = InitView { yaml: manifest_of(w), ..w };
            wait_for(Seq::empty(), InitStage::Check, w2, InitRequestSpec::Check(manifest_of(w)))
        },
    }
}

/// The meaning of an answer to a request, as sequences.
pub enum InitEventSpec {
    Answer(Seq<char>),
    SteamFound(Result<Option<(Seq<char>, Seq<char>)>, Seq<char>>),
    DirChecked(bool, Option<Seq<char>>),
    GitDetected(Option<Seq<char>>, Option<Seq<char>>),
    Checked(Result<(), Seq<char>>),
    Written(Result<(), Seq<char>>),
}

/// The git user name from `git config user.name` output: trimmed, none when empty.
pub open spec fn git_user_of(out: Option<Seq<char>>) -> Option<Seq<char>> {
    match out {
        Some(o) => if trim_ws(o).len() == 0 {
            None
        } else {
            Some(trim_ws(o))
        },
        None => None,
    }
}

/// The text of an answer that does not fit what was asked.
pub open spec fn init_unexpected_text() -> Seq<char> {
    "init received an answer it did not ask for"@
}

/// How `init` goes on from `stage` with what it knows, `v`, when `ev` comes in.
pub open spec fn init_transition(stage: InitStage, v: InitView, ev: InitEventSpec) -> InitTransition {
    match stage {
        InitStage::Done => wait_for(Seq::empty(), InitStage::Done, v, InitRequestSpec::Finished),
        InitStage::Asking(q) => match ev {
            InitEventSpec::Answer(raw) => {
                let a = answer_value(raw, question_prompt(q, v).1);
                match answer_problem(q, a) {
                    Some(msg) => ask_next(seq![msg], q, v),
                    None => accept(q, a, v),
                }
            },
            _ => end_with(Seq::empty(), v, Err(init_unexpected_text())),
        },
        InitStage::SteamLookup => match ev {
            InitEventSpec::SteamFound(Ok(Some((name, path)))) => ask_next(
                seq!["Found: "@ + name + " at "@ + path],
                Question::Confirm,
                InitView { found_name: name, ..v },
            ),
            InitEventSpec::SteamFound(Ok(None)) => ask_next(
                seq![
                    "Game with app ID "@ + decimal_spec(v.steam_id->Some_0 as nat)
                        + " not found in Steam. Is it installed?"@,
                ],
                Question::TryAnother,
                v,
            ),
            InitEventSpec::SteamFound(Err(e)) => ask_next(
                seq!["Could not search Steam: "@ + e],
                Question::GameName,
                InitView { name_default: None, ..v },
            ),
            _ => end_with(Seq::empty(), v, Err(init_unexpected_text())),
        },
        InitStage::DirCheck => match ev {
            InitEventSpec::DirChecked(false, _) => ask_next(
                seq!["'"@ + v.path + "' is not a valid directory."@],
                Question::GamePath,
                v,
            ),
            InitEventSpec::DirChecked(true, file_name) => ask_next(
                Seq::empty(),
                Question::GameName,
                InitView { name_default: file_name, steam_id: None, ..v },
            ),
            _ => end_with(Seq::empty(), v, Err(init_unexpected_text())),
        },
        InitStage::Git => match ev {
            InitEventSpec::GitDetected(remote, user) => {
                let parsed = match remote {
                    Some(u) => parse_github_url_spec(trim_ws(u)),
                    None => None,
                };
                let w = InitView {
                    git_owner: match parsed {
                        Some((o, _)) => Some(o),
                        None => None,
                    },
                    git_repo: match parsed {
                        Some((_, r)) => Some(r),
                        None => None,
                    },
                    git_user: git_user_of(user),
                    ..v
                };
                ask_next(
                    if parsed is Some {
                        seq!["Detected git remote."@]
                    } else {
                        Seq::empty()
                    },
                    Question::Author,
                    w,
                )
            },
            _ => end_with(Seq::empty(), v, Err(init_unexpected_text())),
        },
        InitStage::Check => match ev {
            InitEventSpec::Checked(Ok(())) => wait_for(
                Seq::empty(),
                InitStage::Write,
                v,
                InitRequestSpec::Write(v.yaml),
            ),
            InitEventSpec::Checked(Err(e)) => wait_for(
                seq![
                    "\nWarning: generated manifest has validation errors: "@ + e,
                    "Writing anyway — you can fix these manually."@,
                ],
                InitStage::Write,
                v,
                InitRequestSpec::Write(v.yaml),
            ),
            _ => end_with(Seq::empty(), v, Err(init_unexpected_text())),
        },
        InitStage::Write => match ev {
            InitEventSpec::Written(Ok(())) => end_with(
                seq![
                    "\nCreated: "@ + v.manifest_path,
                    "Next: run `accessforge install` to test the install flow."@,
                ],
                v,
                Ok(()),
            ),
            InitEventSpec::Written(Err(e)) => end_with(Seq::empty(), v, Err(e)),
            _ => end_with(Seq::empty(), v, Err(init_unexpected_text())),
        },
    }
}

/// How `init` begins in folder `dir` (its manifest at `manifest_path`):
/// refused when a manifest already exists there; otherwise the welcome
/// lines and the first question.
pub open spec fn init_start(dir: Seq<char>, manifest_path: Seq<char>, exists: bool) -> InitTransition {
    let v = InitView {
        dir,
        manifest_path,
        steam_id: None,
        found_name: Seq::empty(),
        name_default: None,
        path: Seq::empty(),
        game_name: Seq::empty(),
        loader: Seq::empty(),
        mod_name: Seq::empty(),
        description: Seq::empty(),
        git_owner: None,
        git_repo: None,
        git_user: None,
        author: Seq::empty(),
        source: Seq::empty(),
        yaml: Seq::empty(),
    };
    if exists {
        end_with(Seq::empty(), v, Err("accessforge.yml already exists in "@ + dir))
    } else {
        ask_next(
            seq![
                "Welcome to AccessForge mod setup."@,
                "This will create an accessforge.yml manifest in "@ + dir + "."@,
                "Press Enter to accept the default shown in [brackets].\n"@,
            ],
            Question::Store,
            v,
        )
    }
}

/// What `init` asks the caller to do next.
pub enum InitRequest {
    /// Print the prompt for `label` (with its default, if any) and read a line.
    Ask { label: String, default: Option<String> },
    /// Look the game up in the Steam library by app id.
    LookupSteam { app_id: u32 },
    /// Check whether `path` is a directory (and take its last component's name).
    CheckDir { path: String },
    /// Read the git remote `origin` URL and `git config user.name` in the project folder.
    DetectGit,
    /// Parse and validate the manifest text.
    Check { yaml: String },
    /// Write the manifest file.
    Write { yaml: String },
    /// Nothing more.
    Finished,
}

/// The optional character sequence of an optional string.
pub open spec fn opt_seq(o: Option<String>) -> Option<Seq<char>> {
    match o {
        Some(s) => Some(s@),
        None => None,
    }
}

impl View for InitRequest {
    type V = InitRequestSpec;

    open spec fn view(&self) -> InitRequestSpec {
        match self {
            InitRequest::Ask { label, default } => InitRequestSpec::Ask(label@, opt_seq(*default)),
            InitRequest::LookupSteam { app_id } => InitRequestSpec::LookupSteam(*app_id),
            InitRequest::CheckDir { path } => InitRequestSpec::CheckDir(path@),
            InitRequest::DetectGit => InitRequestSpec::DetectGit,
            InitRequest::Check { yaml } => InitRequestSpec::Check(yaml@),
            InitRequest::Write { yaml } => InitRequestSpec::Write(yaml@),
            InitRequest::Finished => InitRequestSpec::Finished,
        }
    }
}

/// The answer to the last request.
pub enum InitEvent {
    /// The line read (as read, not trimmed).
    Answer(String),
    /// The game found in Steam (its name and where it is), none, or why the search failed.
    SteamFound(Result<Option<(String, String)>, String>),
    /// Whether the path is a directory, and its last component's name.
    DirChecked { is_dir: bool, file_name: Option<String> },
    /// The output of the git commands that succeeded.
    GitDetected { remote_url: Option<String>, user_name: Option<String> },
    /// Whether the manifest text parses and validates, or why not.
    Checked(Result<(), String>),
    /// Whether the file was written, or why not.
    Written(Result<(), String>),
}

/// The meaning of a unit result with a text error.
pub open spec fn unit_seq(r: Result<(), String>) -> Result<(), Seq<char>> {
    match r {
        Ok(()) => Ok(()),
        Err(e) => Err(e@),
    }
}

impl View for InitEvent {
    type V = InitEventSpec;

    open spec fn view(&self) -> InitEventSpec {
        match self {
            InitEvent::Answer(a) => InitEventSpec::Answer(a@),
            InitEvent::SteamFound(r) => InitEventSpec::SteamFound(
                match r {
                    Ok(Some((n, p))) => Ok(Some((n@, p@))),
                    Ok(None) => Ok(None),
                    Err(e) => Err(e@),
                },
            ),
            InitEvent::DirChecked { is_dir, file_name } => InitEventSpec::DirChecked(
                *is_dir,
                opt_seq(*file_name),
            ),
            InitEvent::GitDetected { remote_url, user_name } => InitEventSpec::GitDetected(
                opt_seq(*remote_url),
                opt_seq(*user_name),
            ),
            InitEvent::Checked(r) => InitEventSpec::Checked(unit_seq(*r)),
            InitEvent::Written(r) => InitEventSpec::Written(unit_seq(*r)),
        }
    }
}

/// What one step of `init` produced.
pub struct InitStep {
    /// Lines to print, in order.
    pub lines: Vec<String>,
    /// What to do next.
    pub request: InitRequest,
    /// How `init` ended, once it is over.
    pub outcome: Option<Result<(), String>>,
}

/// The lines of a step as sequences.
pub open spec fn lines_view(lines: Seq<String>) -> Seq<Seq<char>> {
    lines.map_values(|l: String| l@)
}

/// A step agrees with a transition (apart from the session's own state).
pub open spec fn step_matches(r: InitStep, t: InitTransition) -> bool {
    &&& lines_view(r.lines@) == t.lines
    &&& r.request@ == t.request
    &&& match r.outcome {
        None => t.outcome is None,
        Some(o) => t.outcome == Some(unit_seq(o)),
    }
}

/// The stages, without their data.
#[derive(PartialEq, Eq, Structural)]
enum InitPhase {
    Asking,
    SteamLookup,
    DirCheck,
    Git,
    Check,
    Write,
    Done,
}

/// A run of `init`: what it knows and where it stands.
pub struct InitSession {
    phase: InitPhase,
    question: Question,
    dir: String,
    manifest_path: String,
    steam_id: Option<u32>,
    found_name: String,
    name_default: Option<String>,
    path: String,
    game_name: String,
    loader: String,
    mod_name: String,
    description: String,
    git_owner: Option<String>,
    git_repo: Option<String>,
    git_user: Option<String>,
    author: String,
    source: String,
    yaml: String,
}

/// `t` as a string.
fn owned(t: &str) -> (r: String)
    ensures
        r@ == t@,
{
    t.to_owned()
}

/// A copy of an optional string.
fn copy_opt(o: &Option<String>) -> (r: Option<String>)
    ensures
        opt_seq(r) == opt_seq(*o),
{
    match o {
        Some(s) => Some(s.clone()),
        None => None,
    }
}

impl InitSession {
    /// What the session knows.
    pub closed spec fn view_spec(&self) -> InitView {
        InitView {
            dir: self.dir@,
            manifest_path: self.manifest_path@,
            steam_id: self.steam_id,
            found_name: self.found_name@,
            name_default: opt_seq(self.name_default),
            path: self.path@,
            game_name: self.game_name@,
            loader: self.loader@,
            mod_name: self.mod_name@,
            description: self.description@,
            git_owner: opt_seq(self.git_owner),
            git_repo: opt_seq(self.git_repo),
            git_user: opt_seq(self.git_user),
            author: self.author@,
            source: self.source@,
            yaml: self.yaml@,
        }
    }

    /// Where the session stands.
    pub closed spec fn stage(&self) -> InitStage {
        match self.phase {
            InitPhase::Asking => InitStage::Asking(self.question),
            InitPhase::SteamLookup => InitStage::SteamLookup,
            InitPhase::DirCheck => InitStage::DirCheck,
            InitPhase::Git => InitStage::Git,
            InitPhase::Check => InitStage::Check,
            InitPhase::Write => InitStage::Write,
            InitPhase::Done => InitStage::Done,
        }
    }

    /// The bookkeeping is consistent: a Steam lookup is for a chosen id.
    pub closed spec fn wf(&self) -> bool {
        self.phase == InitPhase::SteamLookup ==> self.steam_id is Some
    }

    /// The label and default of question `q`.
    fn prompt_of(&self, q: Question) -> (r: (String, Option<String>))
        ensures
            r.0@ == question_prompt(q, self.view_spec()).0,
            opt_seq(r.1) == question_prompt(q, self.view_spec()).1,
    {
        match q {
            Question::Store => (owned("Store (steam/none)"), Some(owned("none"))),
            Question::SteamId => (owned("Steam app ID"), None),
            Question::Confirm => (owned("Is this correct? (yes/no)"), Some(owned("yes"))),
            Question::TryAnother => (owned("Try another ID? (yes/no)"), Some(owned("yes"))),
            Question::GameName => (owned("Game name"), copy_opt(&self.name_default)),
            Question::GamePath => (owned("Game folder path"), None),
            Question::Loader => (
                owned("Loader (ue4ss/bepinex/melonloader/none)"),
                Some(owned("none")),
            ),
            Question::ModName => {
                let mut d = self.game_name.clone();
                push_str(&mut d, " Access");
                (owned("Mod name"), Some(d))
            },
            Question::Description => {
                let mut d = owned("Screen reader accessibility mod for ");
                push_str(&mut d, self.game_name.as_str());
                (owned("Description"), Some(d))
            },
            Question::Author => {
                let d = if self.git_user.is_some() {
                    copy_opt(&self.git_user)
                } else {
                    copy_opt(&self.git_owner)
                };
                (owned("Author"), d)
            },
            Question::Source => match (&self.git_owner, &self.git_repo) {
                (Some(o), Some(r)) => {
                    let mut d = owned("github:");
                    push_str(&mut d, o.as_str());
                    push_str(&mut d, "/");
                    push_str(&mut d, r.as_str());
                    (owned("Source"), Some(d))
                },
                _ => (owned("Source (github:owner/repo or url:https://...)"), None),
            },
        }
    }

    /// Print `lines`, then ask `q`.
    fn ask_next(&mut self, lines: Vec<String>, q: Question) -> (r: InitStep)
        ensures
            final(self).view_spec() == old(self).view_spec(),
            final(self).wf(),
            final(self).stage() == ask_next(lines_view(lines@), q, old(self).view_spec()).stage,
            step_matches(r, ask_next(lines_view(lines@), q, old(self).view_spec())),
    {
        let (label, default) = self.prompt_of(q);
        self.phase = InitPhase::Asking;
        self.question = q;
        InitStep { lines, request: InitRequest::Ask { label, default }, outcome: None }
    }

    /// Print `lines` and end with `outcome`.
    fn end_with(&mut self, lines: Vec<String>, outcome: Result<(), String>) -> (r: InitStep)
        ensures
            final(self).view_spec() == old(self).view_spec(),
            final(self).wf(),
            final(self).stage() == InitStage::Done,
            step_matches(r, end_with(lines_view(lines@), old(self).view_spec(), unit_seq(outcome))),
    {
        self.phase = InitPhase::Done;
        InitStep { lines, request: InitRequest::Finished, outcome: Some(outcome) }
    }
}

/// No lines.
fn no_lines() -> (r: Vec<String>)
    ensures
        lines_view(r@) == Seq::<Seq<char>>::empty(),
{
    let r: Vec<String> = Vec::new();
    assert(lines_view(r@) =~= Seq::<Seq<char>>::empty());
    r
}

/// One line.
fn one_line(l: String) -> (r: Vec<String>)
    ensures
        lines_view(r@) == seq![l@],
{
    let mut r: Vec<String> = Vec::new();
    r.push(l);
    assert(lines_view(r@) =~= seq![l@]);
    r
}

/// Two lines.
fn two_lines(a: String, b: String) -> (r: Vec<String>)
    ensures
        lines_view(r@) == seq![a@, b@],
{
    let mut r: Vec<String> = Vec::new();
    r.push(a);
    r.push(b);
    assert(lines_view(r@) =~= seq![a@, b@]);
    r
}

/// The answer given: the line trimmed, or the default when that is empty.
fn answer_of(raw: &str, default: &Option<String>) -> (r: String)
    ensures
        r@ == answer_value(raw@, opt_seq(*default)),
{
    let t = string_of(&trim_chars(&chars_of(raw)));
    if t.as_str().is_empty() {
        match default {
            Some(d) => d.clone(),
            None => {
                proof {
                    reveal_strlit("");
                }
                owned("")
            },
        }
    } else {
        t
    }
}

/// Why the answer `a` to `q` is refused, if it is.
fn problem_of(q: Question, a: &str) -> (r: Option<String>)
    ensures
        opt_seq(r) == answer_problem(q, a@),
{
    match q {
        Question::Store => if str_eq(a, "steam") || str_eq(a, "none") {
            None
        } else {
            Some(owned("Must be 'steam' or 'none'."))
        },
        Question::SteamId => if parse_u32(a).is_some() {
            None
        } else {
            Some(owned("Must be a number."))
        },
        Question::Confirm | Question::TryAnother => if str_eq(a, "yes") || str_eq(a, "no") {
            None
        } else {
            Some(owned("Please enter 'yes' or 'no'."))
        },
        Question::GameName => if a.is_empty() {
            Some(owned("Game name cannot be empty."))
        } else {
            None
        },
        Question::GamePath => if a.is_empty() {
            Some(owned("Path cannot be empty."))
        } else {
            None
        },
        Question::Loader => if LoaderKind::from_str(a).is_ok() {
            None
        } else {
            Some(owned("Must be one of: ue4ss, bepinex, melonloader, none"))
        },
        Question::ModName => if a.is_empty() {
            Some(owned("Mod name cannot be empty."))
        } else {
            None
        },
        Question::Description => if a.is_empty() {
            Some(owned("Description cannot be empty."))
        } else {
            None
        },
        Question::Author => if a.is_empty() {
            Some(owned("Author cannot be empty."))
        } else {
            None
        },
        Question::Source => match Source::parse(a) {
            Ok(_) => None,
            Err(e) => Some(source_error_message(e, a)),
        },
    }
}

impl InitSession {
    /// After the accepted answer `a` to `q`.
    fn accept(&mut self, q: Question, a: String) -> (r: InitStep)
        requires
            answer_problem(q, a@) is None,
        ensures
            final(self).wf(),
            final(self).view_spec() == accept(q, a@, old(self).view_spec()).view,
            final(self).stage() == accept(q, a@, old(self).view_spec()).stage,
            step_matches(r, accept(q, a@, old(self).view_spec())),
    {
        match q {
            Question::Store => {
                if str_eq(a.as_str(), "steam") {
                    self.ask_next(no_lines(), Question::SteamId)
                } else {
                    self.ask_next(no_lines(), Question::GamePath)
                }
            },
            Question::SteamId => {
                let id = parse_u32(a.as_str()).unwrap();
                self.steam_id = Some(id);
                self.phase = InitPhase::SteamLookup;
                let lines = no_lines();
                InitStep { lines, request: InitRequest::LookupSteam { app_id: id }, outcome: None }
            },
            Question::Confirm => {
                if str_eq(a.as_str(), "yes") {
                    self.name_default = Some(self.found_name.clone());
                    self.ask_next(no_lines(), Question::GameName)
                } else {
                    self.ask_next(one_line(owned("Let's try again.")), Question::SteamId)
                }
            },
            Question::TryAnother => {
                if str_eq(a.as_str(), "no") {
                    self.name_default = None;
                    self.ask_next(no_lines(), Question::GameName)
                } else {
                    self.ask_next(no_lines(), Question::SteamId)
                }
            },
            Question::GameName => {
                self.game_name = a;
                self.ask_next(no_lines(), Question::Loader)
            },
            Question::GamePath => {
                self.path = a.clone();
                self.phase = InitPhase::DirCheck;
                let lines = no_lines();
                InitStep { lines, request: InitRequest::CheckDir { path: a }, outcome: None }
            },
            Question::Loader => {
                self.loader = a;
                self.ask_next(no_lines(), Question::ModName)
            },
            Question::ModName => {
                self.mod_name = a;
                self.ask_next(no_lines(), Question::Description)
            },
            Question::Description => {
                self.description = a;
                self.phase = InitPhase::Git;
                let lines = no_lines();
                InitStep { lines, request: InitRequest::DetectGit, outcome: None }
            },
            Question::Author => {
                self.author = a;
                self.ask_next(no_lines(), Question::Source)
            },
            Question::Source => {
                self.source = a;
                let yaml = init_manifest_yaml(
                    self.mod_name.as_str(),
                    self.description.as_str(),
                    self.author.as_str(),
                    self.source.as_str(),
                    self.game_name.as_str(),
                    self.steam_id,
                    self.loader.as_str(),
                );
                self.yaml = yaml.clone();
                self.phase = InitPhase::Check;
                let lines = no_lines();
                InitStep { lines, request: InitRequest::Check { yaml }, outcome: None }
            },
        }
    }

    /// Begin `init` in folder `dir`, its manifest to be written at
    /// `manifest_path`; `exists` says whether a manifest is already there.
    pub fn start(dir: String, manifest_path: String, exists: bool) -> (r: (InitSession, InitStep))
        ensures
            r.0.wf(),
            r.0.view_spec() == init_start(dir@, manifest_path@, exists).view,
            r.0.stage() == init_start(dir@, manifest_path@, exists).stage,
            step_matches(r.1, init_start(dir@, manifest_path@, exists)),
    {
        let mut session = InitSession {
            phase: InitPhase::Asking,
            question: Question::Store,
            dir: dir.clone(),
            manifest_path,
            steam_id: None,
            found_name: String::new(),
            name_default: None,
            path: String::new(),
            game_name: String::new(),
            loader: String::new(),
            mod_name: String::new(),
            description: String::new(),
            git_owner: None,
            git_repo: None,
            git_user: None,
            author: String::new(),
            source: String::new(),
            yaml: String::new(),
        };
        proof {
            reveal_strlit("");
        }
        if exists {
            let mut t = owned("accessforge.yml already exists in ");
            push_str(&mut t, dir.as_str());
            let out = session.end_with(no_lines(), Err(t));
            (session, out)
        } else {
            let mut second = owned("This will create an accessforge.yml manifest in ");
            push_str(&mut second, dir.as_str());
            push_str(&mut second, ".");
            let mut lines: Vec<String> = Vec::new();
            lines.push(owned("Welcome to AccessForge mod setup."));
            lines.push(second);
            lines.push(owned("Press Enter to accept the default shown in [brackets].\n"));
            assert(lines_view(lines@) =~= seq![
                "Welcome to AccessForge mod setup."@,
                "This will create an accessforge.yml manifest in "@ + dir@ + "."@,
                "Press Enter to accept the default shown in [brackets].\n"@,
            ]);
            let out = session.ask_next(lines, Question::Store);
            (session, out)
        }
    }

    /// Take the answer to the last request; say what to print, what to ask
    /// for next, and how `init` ended once it is over.
    pub fn step(&mut self, event: InitEvent) -> (r: InitStep)
        requires
            old(self).wf(),
        ensures
            final(self).wf(),
            final(self).view_spec() == init_transition(old(self).stage(), old(self).view_spec(), event@).view,
            final(self).stage() == init_transition(old(self).stage(), old(self).view_spec(), event@).stage,
            step_matches(r, init_transition(old(self).stage(), old(self).view_spec(), event@)),
    {
        let unexpected = "init received an answer it did not ask for";
        if self.phase == InitPhase::Done {
            let lines = no_lines();
            return InitStep { lines, request: InitRequest::Finished, outcome: None };
        }
        match event {
            InitEvent::Answer(raw) => {
                if self.phase != InitPhase::Asking {
                    return self.end_with(no_lines(), Err(owned(unexpected)));
                }
                let q = self.question;
                let default = self.prompt_of(q).1;
                let a = answer_of(raw.as_str(), &default);
                match problem_of(q, a.as_str()) {
                    Some(msg) => self.ask_next(one_line(msg), q),
                    None => self.accept(q, a),
                }
            },
            InitEvent::SteamFound(res) => {
                if self.phase != InitPhase::SteamLookup {
                    return self.end_with(no_lines(), Err(owned(unexpected)));
                }
                match res {
                    Ok(Some((name, path))) => {
                        let mut t = owned("Found: ");
                        push_str(&mut t, name.as_str());
                        push_str(&mut t, " at ");
                        push_str(&mut t, path.as_str());
                        self.found_name = name;
                        self.ask_next(one_line(t), Question::Confirm)
                    },
                    Ok(None) => {
                        let id = self.steam_id.unwrap();
                        let mut t = owned("Game with app ID ");
                        push_decimal(&mut t, id as u64);
                        push_str(&mut t, " not found in Steam. Is it installed?");
                        self.ask_next(one_line(t), Question::TryAnother)
                    },
                    Err(e) => {
                        let mut t = owned("Could not search Steam: ");
                        push_str(&mut t, e.as_str());
                        self.name_default = None;
                        self.ask_next(one_line(t), Question::GameName)
                    },
                }
            },
            InitEvent::DirChecked { is_dir, file_name } => {
                if self.phase != InitPhase::DirCheck {
                    return self.end_with(no_lines(), Err(owned(unexpected)));
                }
                if !is_dir {
                    let mut t = owned("'");
                    push_str(&mut t, self.path.as_str());
                    push_str(&mut t, "' is not a valid directory.");
                    self.ask_next(one_line(t), Question::GamePath)
                } else {
                    self.name_default = file_name;
                    self.steam_id = None;
                    self.ask_next(no_lines(), Question::GameName)
                }
            },
            InitEvent::GitDetected { remote_url, user_name } => {
                if self.phase != InitPhase::Git {
                    return self.end_with(no_lines(), Err(owned(unexpected)));
                }
                let (owner, repo) = match &remote_url {
                    Some(u) => {
                        let t = string_of(&trim_chars(&chars_of(u.as_str())));
                        parse_github_url(t.as_str())
                    },
                    None => (None, None),
                };
                let user = match &user_name {
                    Some(u) => {
                        let t = string_of(&trim_chars(&chars_of(u.as_str())));
                        if t.as_str().is_empty() {
                            None
                        } else {
                            Some(t)
                        }
                    },
                    None => None,
                };
                let detected = owner.is_some();
                self.git_owner = owner;
                self.git_repo = repo;
                self.git_user = user;
                let lines = if detected {
                    one_line(owned("Detected git remote."))
                } else {
                    no_lines()
                };
                self.ask_next(lines, Question::Author)
            },
            InitEvent::Checked(res) => {
                if self.phase != InitPhase::Check {
                    return self.end_with(no_lines(), Err(owned(unexpected)));
                }
                let lines = match res {
                    Ok(()) => no_lines(),
                    Err(e) => {
                        let mut t = owned("\nWarning: generated manifest has validation errors: ");
                        push_str(&mut t, e.as_str());
                        two_lines(t, owned("Writing anyway — you can fix these manually."))
                    },
                };
                self.phase = InitPhase::Write;
                InitStep { lines, request: InitRequest::Write { yaml: self.yaml.clone() }, outcome: None }
            },
            InitEvent::Written(res) => {
                if self.phase != InitPhase::Write {
                    return self.end_with(no_lines(), Err(owned(unexpected)));
                }
                match res {
                    Ok(()) => {
                        let mut t = owned("\nCreated: ");
                        push_str(&mut t, self.manifest_path.as_str());
                        let lines = two_lines(
                            t,
                            owned("Next: run `accessforge install` to test the install flow."),
                        );
                        self.end_with(lines, Ok(()))
                    },
                    Err(e) => self.end_with(no_lines(), Err(e)),
                }
            },
        }
    }
}

/// An answer is taken only when it passes its question's check; otherwise
/// the reason is printed and the same question is asked again.
pub proof fn lemma_answers_are_checked(q: Question, v: InitView, raw: Seq<char>)
    ensures
        ({
            let a = answer_value(raw, question_prompt(q, v).1);
            let t = init_transition(InitStage::Asking(q), v, InitEventSpec::Answer(raw));
            &&& answer_problem(q, a) matches Some(msg) ==> t.lines == seq![msg] && t.stage
                == InitStage::Asking(q) && t.view == v
            &&& answer_problem(q, a) is None ==> t == accept(q, a, v)
        }),
{
}

/// The manifest `init` checks and writes is the one built from the answers:
/// the source answer asks to check exactly that text, and the file written
/// holds the text that was checked.
pub proof fn lemma_written_manifest_is_built_from_answers(
    stage: InitStage,
    v: InitView,
    ev: InitEventSpec,
)
    ensures
        ({
            let t = init_transition(stage, v, ev);
            &&& t.request matches InitRequestSpec::Check(y) ==> y == manifest_of(t.view) && y
                == t.view.yaml
            &&& t.request matches InitRequestSpec::Write(y) ==> y == v.yaml && stage is Check
        }),
{
    let t = init_transition(stage, v, ev);
    match stage {
        InitStage::Asking(q) => {
            if let InitEventSpec::Answer(raw) = ev {
                let a = answer_value(raw, question_prompt(q, v).1);
                if answer_problem(q, a) is None && q == Question::Source {
                    let w = InitView { source: a, ..v };
                    assert(t.view == InitView { yaml: manifest_of(w), ..w });
                    assert(manifest_of(t.view) == manifest_of(w));
                }
            }
        },
        _ => {},
    }
}

} // verus!
