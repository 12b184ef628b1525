//! The command palette: its commands, and the search that ranks them
//! against what the user has typed.

use fuzzy_matcher::skim::SkimMatcherV2;
use fuzzy_matcher::FuzzyMatcher;
use vstd::prelude::*;
use vstd::string::StrSliceExecFns;

verus! {

/// A command in the palette.
#[derive(Debug, Clone)]
pub struct Command {
    pub id: &'static str,
    pub label: &'static str,
    pub shortcut: Option<&'static str>,
    pub keywords: Vec<&'static str>,
}

/// What a `Command` stands for in contracts.
pub struct CommandView {
    pub id: Seq<char>,
    pub label: Seq<char>,
    pub shortcut: Option<Seq<char>>,
    pub keywords: Seq<Seq<char>>,
}

impl View for Command {
    type V = CommandView;

    open spec fn view(&self) -> CommandView {
        CommandView {
            id: self.id@,
            label: self.label@,
            shortcut: match self.shortcut {
                Some(s) => Some(s@),
                None => None,
            },
            keywords: self.keywords@.map_values(|k: &'static str| k@),
        }
    }
}

/// All available commands.
pub open spec fn command_table() -> Seq<CommandView> {
    seq![
        CommandView {
            id: "new_tab"@,
            label: "New Tab"@,
            shortcut: Some("Cmd+T"@),
            keywords: seq!["new"@, "tab"@, "create"@, "workspace"@],
        },
        CommandView {
            id: "close_tab"@,
            label: "Close Tab"@,
            shortcut: Some("Cmd+W"@),
            keywords: seq!["close"@, "tab"@, "remove"@, "workspace"@],
        },
        CommandView {
            id: "split_horizontal"@,
            label: "Split Horizontally"@,
            shortcut: Some("Cmd+D"@),
            keywords: seq!["split"@, "horizontal"@, "pane"@, "divide"@],
        },
        CommandView {
            id: "split_vertical"@,
            label: "Split Vertically"@,
            shortcut: Some("Cmd+Shift+D"@),
            keywords: seq!["split"@, "vertical"@, "pane"@, "divide"@],
        },
        CommandView {
            id: "close_pane"@,
            label: "Close Pane"@,
            shortcut: Some("Cmd+Shift+W"@),
            keywords: seq!["close"@, "pane"@, "remove"@],
        },
        CommandView {
            id: "toggle_sidebar"@,
            label: "Toggle Sidebar"@,
            shortcut: Some("Cmd+B"@),
            keywords: seq!["sidebar"@, "toggle"@, "hide"@, "show"@],
        },
        CommandView {
            id: "settings"@,
            label: "Open Settings"@,
            shortcut: None,
            keywords: seq!["settings"@, "config"@, "preferences"@],
        },
        CommandView {
            id: "next_tab"@,
            label: "Next Tab"@,
            shortcut: Some("Cmd+]"@),
            keywords: seq!["next"@, "tab"@, "switch"@],
        },
        CommandView {
            id: "prev_tab"@,
            label: "Previous Tab"@,
            shortcut: Some("Cmd+["@),
            keywords: seq!["previous"@, "tab"@, "switch"@],
        },
    ]
}

/// All available commands.
pub fn commands() -> (all: Vec<Command>)
    ensures
        all@.map_values(|c: Command| c@) == command_table(),
{
    let mut all: Vec<Command> = Vec::new();
    let keywords: Vec<&'static str> = vec!["new", "tab", "create", "workspace"];
    assert(keywords@.map_values(|k: &'static str| k@) =~= command_table()[0].keywords);
    all.push(Command { id: "new_tab", label: "New Tab", shortcut: Some("Cmd+T"), keywords });
    let keywords: Vec<&'static str> = vec!["close", "tab", "remove", "workspace"];
    assert(keywords@.map_values(|k: &'static str| k@) =~= command_table()[1].keywords);
    all.push(Command { id: "close_tab", label: "Close Tab", shortcut: Some("Cmd+W"), keywords });
    let keywords: Vec<&'static str> = vec!["split", "horizontal", "pane", "divide"];
    assert(keywords@.map_values(|k: &'static str| k@) =~= command_table()[2].keywords);
    all.push(Command { id: "split_horizontal", label: "Split Horizontally", shortcut: Some("Cmd+D"), keywords });
    let keywords: Vec<&'static str> = vec!["split", "vertical", "pane", "divide"];
    assert(keywords@.map_values(|k: &'static str| k@) =~= command_table()[3].keywords);
    all.push(Command { id: "split_vertical", label: "Split Vertically", shortcut: Some("Cmd+Shift+D"), keywords });
    let keywords: Vec<&'static str> = vec!["close", "pane", "remove"];
    assert(keywords@.map_values(|k: &'static str| k@) =~= command_table()[4].keywords);
    all.push(Command { id: "close_pane", label: "Close Pane", shortcut: Some("Cmd+Shift+W"), keywords });
    let keywords: Vec<&'static str> = vec!["sidebar", "toggle", "hide", "show"];
    assert(keywords@.map_values(|k: &'static str| k@) =~= command_table()[5].keywords);
    all.push(Command { id: "toggle_sidebar", label: "Toggle Sidebar", shortcut: Some("Cmd+B"), keywords });
    let keywords: Vec<&'static str> = vec!["settings", "config", "preferences"];
    assert(keywords@.map_values(|k: &'static str| k@) =~= command_table()[6].keywords);
    all.push(Command { id: "settings", label: "Open Settings", shortcut: None, keywords });
    let keywords: Vec<&'static str> = vec!["next", "tab", "switch"];
    assert(keywords@.map_values(|k: &'static str| k@) =~= command_table()[7].keywords);
    all.push(Command { id: "next_tab", label: "Next Tab", shortcut: Some("Cmd+]"), keywords });
    let keywords: Vec<&'static str> = vec!["previous", "tab", "switch"];
    assert(keywords@.map_values(|k: &'static str| k@) =~= command_table()[8].keywords);
    all.push(Command { id: "prev_tab", label: "Previous Tab", shortcut: Some("Cmd+["), keywords });
    assert(all@.map_values(|c: Command| c@) =~= command_table());
    all
}

/// Longest choice, in characters, that is scored against a query.
pub const MAX_CHOICE_CHARS: usize = 0x10_0000;

/// The score that `fuzzy_matcher`'s `SkimMatcherV2`, as its `default` makes
/// it, gives the choice for the pattern; `None` where the choice does not
/// match.
pub uninterp spec fn fuzzy_score(choice: Seq<char>, pattern: Seq<char>) -> Option<i64>;

/// Calls `SkimMatcherV2::default().fuzzy_match`. The contract gives the
/// score its name, `fuzzy_score`; the matcher computes it from the two
/// strings alone. Its scores are sums in 32 bits over the characters of
/// the choice, so the choice is kept short of what could overflow them.
#[verifier::external_body]
fn skim_fuzzy_match(choice: &str, pattern: &str) -> (score: Option<i64>)
    requires
        choice@.len() <= MAX_CHOICE_CHARS,
    ensures
        score == fuzzy_score(choice@, pattern@),
{
    SkimMatcherV2::default().fuzzy_match(choice, pattern)
}

/// The score of a choice for a query: that of the matcher, where the
/// choice is short enough to be scored.
pub open spec fn limited_score(choice: Seq<char>, query: Seq<char>) -> Option<i64> {
    if choice.len() <= MAX_CHOICE_CHARS {
        fuzzy_score(choice, query)
    } else {
        None
    }
}

/// Score a choice against a query. A choice longer than
/// `MAX_CHOICE_CHARS` does not match.
pub fn match_score(choice: &str, query: &str) -> (score: Option<i64>)
    ensures
        score == limited_score(choice@, query@),
{
    if choice.unicode_len() <= MAX_CHOICE_CHARS {
        skim_fuzzy_match(choice, query)
    } else {
        None
    }
}

/// The greater of two scores, a score outranking none.
pub open spec fn better(a: Option<i64>, b: Option<i64>) -> Option<i64> {
    match (a, b) {
        (None, _) => b,
        (_, None) => a,
        (Some(x), Some(y)) => if x >= y {
            a
        } else {
            b
        },
    }
}

/// The greatest of the scores, if any is a score.
pub open spec fn best_of(scores: Seq<Option<i64>>) -> Option<i64>
    decreases scores.len(),
{
    if scores.len() == 0 {
        None
    } else {
        better(best_of(scores.drop_last()), scores.last())
    }
}

/// The score of a command for a query: that of its label where the label
/// matches, else the best score among its keywords.
pub open spec fn combined_score(label: Option<i64>, keywords: Seq<Option<i64>>) -> Option<i64> {
    match label {
        Some(score) => Some(score),
        None => best_of(keywords),
    }
}

/// The score of a command for a query.
pub open spec fn command_score(command: CommandView, query: Seq<char>) -> Option<i64> {
    combined_score(
        limited_score(command.label, query),
        command.keywords.map_values(|k: Seq<char>| limited_score(k, query)),
    )
}

/// The score of a command from the score of its label and the scores of
/// its keywords.
pub fn combine_scores(label: Option<i64>, keywords: &Vec<Option<i64>>) -> (score: Option<i64>)
    ensures
        score == combined_score(label, keywords@),
{
    let mut best: Option<i64> = None;
    let mut i: usize = 0;
    while i < keywords.len()
        invariant
            i <= keywords@.len(),
            best == best_of(keywords@.take(i as int)),
        decreases keywords@.len() - i,
    {
        proof {
            assert(keywords@.take(i + 1).drop_last() =~= keywords@.take(i as int));
        }
        best = match (best, keywords[i]) {
            (None, other) => other,
            (kept, None) => kept,
            (Some(x), Some(y)) => if x >= y {
                Some(x)
            } else {
                Some(y)
            },
        };
        i += 1;
    }
    assert(keywords@.take(i as int) =~= keywords@);
    match label {
        Some(score) => Some(score),
        None => best,
    }
}

/// Score a command against a query.
pub fn score_command(command: &Command, query: &str) -> (score: Option<i64>)
    ensures
        score == command_score(command@, query@),
{
    let label_score = match_score(command.label, query);
    let mut keyword_scores: Vec<Option<i64>> = Vec::new();
    let mut i: usize = 0;
    while i < command.keywords.len()
        invariant
            i <= command.keywords@.len(),
            keyword_scores@ == command@.keywords.take(i as int).map_values(
                |k: Seq<char>| limited_score(k, query@),
            ),
        decreases command.keywords@.len() - i,
    {
        let score = match_score(command.keywords[i], query);
        keyword_scores.push(score);
        proof {
            assert(keyword_scores@ =~= command@.keywords.take(i + 1).map_values(
                |k: Seq<char>| limited_score(k, query@),
            ));
        }
        i += 1;
    }
    proof {
        assert(command@.keywords.take(i as int) =~= command@.keywords);
    }
    combine_scores(label_score, &keyword_scores)
}

/// Command with match score.
#[derive(Debug, Clone, Copy, PartialEq, Eq, Structural)]
pub struct CommandMatch {
    /// Place of the command in the list of commands.
    pub command: usize,
    pub score: i64,
}

/// Whether match `a` ranks before match `b`: by the higher score, and among
/// equal scores by the earlier command.
pub open spec fn ranks_before(a: CommandMatch, b: CommandMatch) -> bool {
    a.score > b.score || (a.score == b.score && a.command < b.command)
}

/// Each match ranks before those after it.
pub open spec fn ranked(matches: Seq<CommandMatch>) -> bool {
    forall|i: int, j: int|
        0 <= i < j < matches.len() ==> ranks_before(#[trigger] matches[i], #[trigger] matches[j])
}

/// No command has two matches.
pub open spec fn one_per_command(matches: Seq<CommandMatch>) -> bool {
    forall|i: int, j: int|
        0 <= i < matches.len() && 0 <= j < matches.len() && i != j ==> (
        #[trigger] matches[i]).command != (#[trigger] matches[j]).command
}

/// The matches of the first `upto` commands for a query, in the order of
/// the commands: one for each command that has a score.
pub open spec fn matching(commands: Seq<CommandView>, query: Seq<char>, upto: int) -> Seq<
    CommandMatch,
>
    decreases upto,
{
    if upto <= 0 {
        Seq::empty()
    } else {
        matching(commands, query, upto - 1) + match command_score(commands[upto - 1], query) {
            Some(score) => seq![CommandMatch { command: (upto - 1) as usize, score }],
            None => Seq::empty(),
        }
    }
}

/// Every command with score 0, in the order of the commands.
pub open spec fn unfiltered(count: nat) -> Seq<CommandMatch> {
    Seq::new(count, |i: int| CommandMatch { command: i as usize, score: 0 })
}

/// Whether match `a` ranks before match `b`.
fn goes_before(a: &CommandMatch, b: &CommandMatch) -> (before: bool)
    ensures
        before == ranks_before(*a, *b),
{
    a.score > b.score || (a.score == b.score && a.command < b.command)
}

/// Rank matches: by score, the highest first, and among equal scores by
/// the place of the command. The result holds the same matches.
pub fn rank_matches(matches: &Vec<CommandMatch>) -> (sorted: Vec<CommandMatch>)
    requires
        one_per_command(matches@),
    ensures
        sorted@.to_multiset() == matches@.to_multiset(),
        ranked(sorted@),
{
    let mut sorted: Vec<CommandMatch> = Vec::new();
    let mut i: usize = 0;
    assert(sorted@ =~= matches@.take(0));
    while i < matches.len()
        invariant
            i <= matches@.len(),
            one_per_command(matches@),
            sorted@.to_multiset() == matches@.take(i as int).to_multiset(),
            sorted@.len() == i,
            ranked(sorted@),
        decreases matches@.len() - i,
    {
        let item = matches[i];
        let mut at: usize = 0;
        while at < sorted.len() && !goes_before(&item, &sorted[at])
            invariant
                at <= sorted@.len(),
                forall|k: int| 0 <= k < at ==> !ranks_before(item, #[trigger] sorted@[k]),
            decreases sorted@.len() - at,
        {
            at += 1;
        }
        let ghost before = sorted@;
        proof {
            before.to_multiset_ensures();
            matches@.take(i as int).to_multiset_ensures();
            assert forall|k: int| 0 <= k < before.len() implies (#[trigger] before[k]).command
                != item.command by {
                assert(before.contains(before[k]));
                assert(before.to_multiset().count(before[k]) > 0);
                assert(matches@.take(i as int).to_multiset().count(before[k]) > 0);
                assert(matches@.take(i as int).contains(before[k]));
                let j = choose|j: int|
                    0 <= j < matches@.take(i as int).len() && matches@.take(i as int)[j]
                        == before[k];
                assert(matches@[j] == before[k]);
            }
        }
        sorted.insert(at, item);
        proof {
            vstd::seq_lib::to_multiset_insert(before, at as int, item);
            assert(matches@.take(i + 1) =~= matches@.take(i as int).push(item));
            vstd::seq_lib::to_multiset_build(matches@.take(i as int), item);
            assert forall|a: int, b: int| 0 <= a < b < sorted@.len() implies ranks_before(
                #[trigger] sorted@[a],
                #[trigger] sorted@[b],
            ) by {
                if b < at {
                    assert(sorted@[a] == before[a] && sorted@[b] == before[b]);
                } else if b == at {
                    assert(sorted@[a] == before[a]);
                    assert(!ranks_before(item, before[a]));
                } else if a < at {
                    assert(sorted@[a] == before[a] && sorted@[b] == before[b - 1]);
                } else if a == at {
                    assert(sorted@[b] == before[b - 1]);
                    assert(ranks_before(item, before[at as int]));
                    if b - 1 > at {
                        assert(ranks_before(before[at as int], before[b - 1]));
                    }
                } else {
                    assert(sorted@[a] == before[a - 1] && sorted@[b] == before[b - 1]);
                }
            }
        }
        i += 1;
    }
    proof {
        assert(matches@.take(i as int) =~= matches@);
    }
    sorted
}

/// The matches for a query are of different commands, each of the list.
pub proof fn lemma_matching(commands: Seq<CommandView>, query: Seq<char>, upto: int)
    requires
        0 <= upto <= commands.len() <= usize::MAX,
    ensures
        one_per_command(matching(commands, query, upto)),
        forall|k: int|
            0 <= k < matching(commands, query, upto).len() ==> (#[trigger] matching(
                commands,
                query,
                upto,
            )[k]).command < upto,
        matching(commands, query, upto).len() <= upto,
    decreases upto,
{
    if upto > 0 {
        lemma_matching(commands, query, upto - 1);
        let earlier = matching(commands, query, upto - 1);
        let all = matching(commands, query, upto);
        assert forall|k: int| 0 <= k < all.len() implies (#[trigger] all[k]).command < upto by {
            if k < earlier.len() {
                assert(all[k] == earlier[k]);
            }
        }
        assert forall|i: int, j: int|
            0 <= i < all.len() && 0 <= j < all.len() && i != j implies (#[trigger] all[i]).command
            != (#[trigger] all[j]).command by {
            if i < earlier.len() {
                assert(all[i] == earlier[i]);
                assert(earlier[i].command < upto - 1);
            }
            if j < earlier.len() {
                assert(all[j] == earlier[j]);
                assert(earlier[j].command < upto - 1);
            }
        }
    }
}

/// The commands that match a query, the best match first: every command
/// with score 0 for the empty query; else the commands that have a score,
/// ranked by it, those of equal score in the order of the list.
pub fn filter_commands(commands: &Vec<Command>, query: &str) -> (matches: Vec<CommandMatch>)
    ensures
        query@.len() == 0 ==> matches@ == unfiltered(commands@.len()),
        query@.len() > 0 ==> {
            &&& matches@.to_multiset() == matching(
                commands@.map_values(|c: Command| c@),
                query@,
                commands@.len() as int,
            ).to_multiset()
            &&& ranked(matches@)
        },
        forall|k: int| 0 <= k < matches@.len() ==> (#[trigger] matches@[k]).command < commands@.len(),
        matches@.len() <= commands@.len(),
{
    let ghost views = commands@.map_values(|c: Command| c@);
    let mut found: Vec<CommandMatch> = Vec::new();
    let empty = query.is_empty();
    let mut i: usize = 0;
    while i < commands.len()
        invariant
            i <= commands@.len(),
            views == commands@.map_values(|c: Command| c@),
            empty == (query@.len() == 0),
            empty ==> found@ == unfiltered(i as nat),
            !empty ==> found@ == matching(views, query@, i as int),
        decreases commands@.len() - i,
    {
        if empty {
            found.push(CommandMatch { command: i, score: 0 });
            assert(found@ =~= unfiltered((i + 1) as nat));
        } else {
            match score_command(&commands[i], query) {
                Some(score) => {
                    found.push(CommandMatch { command: i, score });
                },
                None => {
                    assert(found@ + Seq::<CommandMatch>::empty() =~= found@);
                },
            }
        }
        i += 1;
    }
    if empty {
        return found;
    }
    proof {
        lemma_matching(views, query@, commands@.len() as int);
    }
    let sorted = rank_matches(&found);
    proof {
        sorted@.to_multiset_ensures();
        found@.to_multiset_ensures();
        assert forall|k: int| 0 <= k < sorted@.len() implies (#[trigger] sorted@[k]).command
            < commands@.len() by {
            assert(sorted@.contains(sorted@[k]));
            assert(sorted@.to_multiset().count(sorted@[k]) > 0);
            assert(found@.to_multiset().count(sorted@[k]) > 0);
            assert(found@.contains(sorted@[k]));
            let j = choose|j: int| 0 <= j < found@.len() && found@[j] == sorted@[k];
            assert(found@[j].command < commands@.len());
        }
    }
    sorted
}

/// Command palette state.
pub struct CommandPalette {
    visible: bool,
    query: String,
    filtered: Vec<CommandMatch>,
    selected: usize,
    commands: Vec<Command>,
}

impl CommandPalette {
    /// Whether the palette is shown.
    pub closed spec fn shown(&self) -> bool {
        self.visible
    }

    /// What the user has typed.
    pub closed spec fn typed(&self) -> Seq<char> {
        self.query@
    }

    /// The matches that the palette lists.
    pub closed spec fn listed(&self) -> Seq<CommandMatch> {
        self.filtered@
    }

    /// Place of the selected match in the list.
    pub closed spec fn selection(&self) -> usize {
        self.selected
    }

    /// The commands of the palette.
    pub closed spec fn available(&self) -> Seq<CommandView> {
        self.commands@.map_values(|c: Command| c@)
    }

    /// The invariant of the palette: it holds the commands of the table,
    /// and each match names one of them.
    pub closed spec fn well_formed(&self) -> bool {
        &&& self.available() == command_table()
        &&& forall|k: int|
            0 <= k < self.filtered@.len() ==> (#[trigger] self.filtered@[k]).command
                < self.commands@.len()
    }

    /// A hidden palette that lists every command.
    pub fn new() -> (palette: Self)
        ensures
            palette.well_formed(),
            !palette.shown(),
            palette.typed() == Seq::<char>::empty(),
            palette.listed() == unfiltered(command_table().len()),
            palette.selection() == 0,
    {
        let commands = commands();
        let query = String::new();
        let filtered = filter_commands(&commands, query.as_str());
        assert(commands@.len() == commands@.map_values(|c: Command| c@).len());
        CommandPalette { visible: false, query, filtered, selected: 0, commands }
    }

    /// Toggle visibility. A palette that comes up has an empty query, lists
    /// every command, and selects the first.
    pub fn toggle(&mut self)
        requires
            old(self).well_formed(),
        ensures
            final(self).well_formed(),
            final(self).shown() == !old(self).shown(),
            final(self).shown() ==> {
                &&& final(self).typed() == Seq::<char>::empty()
                &&& final(self).listed() == unfiltered(command_table().len())
                &&& final(self).selection() == 0
            },
            !final(self).shown() ==> {
                &&& final(self).typed() == old(self).typed()
                &&& final(self).listed() == old(self).listed()
                &&& final(self).selection() == old(self).selection()
            },
    {
        self.visible = !self.visible;
        if self.visible {
            self.query = String::new();
            self.update_filter();
            self.selected = 0;
            assert(self.commands@.len() == self.commands@.map_values(|c: Command| c@).len());
        }
    }

    /// Is palette visible?
    pub fn is_visible(&self) -> (visible: bool)
        ensures
            visible == self.shown(),
    {
        self.visible
    }

    /// Hide the palette.
    pub fn close(&mut self)
        requires
            old(self).well_formed(),
        ensures
            final(self).well_formed(),
            !final(self).shown(),
            final(self).typed() == old(self).typed(),
            final(self).listed() == old(self).listed(),
            final(self).selection() == old(self).selection(),
    {
        self.visible = false;
    }

    /// Take what the user has typed as the query, and list the commands
    /// that match it.
    pub fn set_query(&mut self, query: String)
        requires
            old(self).well_formed(),
        ensures
            final(self).well_formed(),
            final(self).shown() == old(self).shown(),
            final(self).typed() == query@,
            final(self).selection() == 0,
            query@.len() == 0 ==> final(self).listed() == unfiltered(command_table().len()),
            query@.len() > 0 ==> {
                &&& final(self).listed().to_multiset() == matching(
                    command_table(),
                    query@,
                    command_table().len() as int,
                ).to_multiset()
                &&& ranked(final(self).listed())
            },
    {
        self.query = query;
        self.update_filter();
        assert(self.commands@.len() == self.commands@.map_values(|c: Command| c@).len());
    }

    /// Update filtered commands based on query.
    fn update_filter(&mut self)
        requires
            old(self).available() == command_table(),
        ensures
            final(self).well_formed(),
            final(self).visible == old(self).visible,
            final(self).query == old(self).query,
            final(self).commands == old(self).commands,
            final(self).selected == 0,
            final(self).query@.len() == 0 ==> final(self).filtered@ == unfiltered(
                final(self).commands@.len(),
            ),
            final(self).query@.len() > 0 ==> {
                &&& final(self).filtered@.to_multiset() == matching(
                    command_table(),
                    final(self).query@,
                    final(self).commands@.len() as int,
                ).to_multiset()
                &&& ranked(final(self).filtered@)
            },
    {
        self.filtered = filter_commands(&self.commands, self.query.as_str());
        self.selected = 0;
    }

    /// Move the selection one match down, up to the last.
    pub fn select_next(&mut self)
        requires
            old(self).well_formed(),
        ensures
            final(self).well_formed(),
            final(self).shown() == old(self).shown(),
            final(self).typed() == old(self).typed(),
            final(self).listed() == old(self).listed(),
            final(self).selection() == if old(self).selection() + 1 < old(self).listed().len() {
                old(self).selection() + 1
            } else {
                old(self).selection() as int
            },
    {
        let count = self.filtered.len();
        if count > 0 && self.selected < count - 1 {
            self.selected += 1;
        }
    }

    /// Move the selection one match up, up to the first.
    pub fn select_prev(&mut self)
        requires
            old(self).well_formed(),
        ensures
            final(self).well_formed(),
            final(self).shown() == old(self).shown(),
            final(self).typed() == old(self).typed(),
            final(self).listed() == old(self).listed(),
            final(self).selection() == if old(self).selection() > 0 {
                old(self).selection() - 1
            } else {
                0
            },
    {
        if self.selected > 0 {
            self.selected -= 1;
        }
    }

    /// The matches that the palette lists, the best first.
    pub fn matches(&self) -> (listed: &Vec<CommandMatch>)
        ensures
            listed@ == self.listed(),
    {
        &self.filtered
    }

    /// Place of the selected match in the list.
    pub fn selected(&self) -> (at: usize)
        ensures
            at == self.selection(),
    {
        self.selected
    }

    /// The command of a match.
    pub fn command(&self, found: &CommandMatch) -> (command: Option<&Command>)
        ensures
            match command {
                Some(c) => found.command < self.available().len() && c@
                    == self.available()[found.command as int],
                None => found.command >= self.available().len(),
            },
    {
        if found.command < self.commands.len() {
            Some(&self.commands[found.command])
        } else {
            None
        }
    }

    /// Execute the match at place `at` of the list: the palette hides, and
    /// the id of the match's command comes back. Nothing happens where the
    /// list has no such place.
    pub fn execute(&mut self, at: usize) -> (id: Option<&'static str>)
        requires
            old(self).well_formed(),
        ensures
            final(self).well_formed(),
            final(self).typed() == old(self).typed(),
            final(self).listed() == old(self).listed(),
            final(self).selection() == old(self).selection(),
            match id {
                Some(text) => {
                    &&& at < old(self).listed().len()
                    &&& text@ == command_table()[old(self).listed()[at as int].command as int].id
                    &&& !final(self).shown()
                },
                None => at >= old(self).listed().len() && final(self).shown() == old(self).shown(),
            },
    {
        if at < self.filtered.len() {
            let found = self.filtered[at];
            assert(self.commands@.len() == self.commands@.map_values(|c: Command| c@).len());
            let id = self.commands[found.command].id;
            self.visible = false;
            Some(id)
        } else {
            None
        }
    }
}

} // verus!
