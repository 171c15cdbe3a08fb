//! The command language: one line, one command.
use crate::command::{help_text, join3, CommandModel, GraphCommand};
use crate::names::{Id, Label, Line};
use crate::scan::is_letter;
use crate::text::{chars_of, copy_range, matches_at, occurs_at, string_of};
use vstd::prelude::*;
use vstd::std_specs::convert::FromSpecImpl;
use vstd::string::StringExecFns;

verus! {

/// What a line of input asks for.
#[derive(PartialEq, Eq, Debug)]
pub enum Command {
    GraphCommand(GraphCommand),
    ShowHelp,
    Search { sub_label: Label },
    PrintDot,
    PrintJson,
    RenameNodeUnlabelled { id: Id },
    Save,
    CriticalPathAnalysis { variable_name: String },
    CostAnalysis { variable_name: String },
    Show,
    Exit,
    ParseError { line: Line },
}

/// What a line of input asks for, as specifications see it.
#[verifier::ext_equal]
pub enum RequestModel {
    GraphCommand(CommandModel),
    ShowHelp,
    Search { sub_label: Seq<char> },
    PrintDot,
    PrintJson,
    RenameNodeUnlabelled { id: Seq<char> },
    Save,
    CriticalPathAnalysis { variable_name: Seq<char> },
    CostAnalysis { variable_name: Seq<char> },
    Show,
    Exit,
    ParseError { line: Seq<char> },
}

impl View for Command {
    type V = RequestModel;

    open spec fn view(&self) -> RequestModel {
        match self {
            Command::GraphCommand(c) => RequestModel::GraphCommand(c@),
            Command::ShowHelp => RequestModel::ShowHelp,
            Command::Search { sub_label } => RequestModel::Search { sub_label: sub_label@ },
            Command::PrintDot => RequestModel::PrintDot,
            Command::PrintJson => RequestModel::PrintJson,
            Command::RenameNodeUnlabelled { id } => RequestModel::RenameNodeUnlabelled { id: id@ },
            Command::Save => RequestModel::Save,
            Command::CriticalPathAnalysis { variable_name } => RequestModel::CriticalPathAnalysis {
                variable_name: variable_name@,
            },
            Command::CostAnalysis { variable_name } => RequestModel::CostAnalysis {
                variable_name: variable_name@,
            },
            Command::Show => RequestModel::Show,
            Command::Exit => RequestModel::Exit,
            Command::ParseError { line } => RequestModel::ParseError { line: line@ },
        }
    }
}

impl From<GraphCommand> for Command {
    fn from(c: GraphCommand) -> (r: Self) {
        Command::GraphCommand(c)
    }
}

impl FromSpecImpl<GraphCommand> for Command {
    open spec fn obeys_from_spec() -> bool {
        true
    }

    open spec fn from_spec(c: GraphCommand) -> Self {
        Command::GraphCommand(c)
    }
}

/// The help line of a request.
pub open spec fn request_help(c: RequestModel) -> Seq<char> {
    match c {
        RequestModel::GraphCommand(g) => help_text(g),
        RequestModel::ShowHelp => "display this help"@,
        RequestModel::Search { sub_label } => "search for <"@ + sub_label
            + "> and highlight matching nodes"@,
        RequestModel::PrintDot => "print the dot definition for this graph to the terminal"@,
        RequestModel::PrintJson => "print the json definition for this graph to the terminal"@,
        RequestModel::RenameNodeUnlabelled { id } => "rename <"@ + id
            + "> but no new label text supplied"@,
        RequestModel::Save => "save the graph to disc"@,
        RequestModel::CriticalPathAnalysis { variable_name } =>
            "do a critical path analysis on the graph using <"@ + variable_name
                + "> as the cost"@,
        RequestModel::CostAnalysis { variable_name } =>
            "sum the cost of all nodes in the graph using <"@ + variable_name + "> as the cost"@,
        RequestModel::Show => "open the diagram in Gapplin"@,
        RequestModel::Exit => "exit microdot"@,
        RequestModel::ParseError { line } => "could not parse: \""@ + line + "\""@,
    }
}

/// Whether the picture of the graph is to be made anew after the request:
/// after a command on the graph, a search, a request to save, and an
/// analysis of the paths.
pub open spec fn asks_for_render(c: RequestModel) -> bool {
    c is GraphCommand || c is Search || c is Save || c is CriticalPathAnalysis
}

impl Command {
    /// Whether the picture of the graph is to be made anew after the request.
    pub fn needs_render(&self) -> (r: bool)
        ensures
            r == asks_for_render(self@),
    {
        match self {
            Command::GraphCommand(_) => true,
            Command::Search { sub_label } => true,
            Command::Save => true,
            Command::CriticalPathAnalysis { variable_name } => true,
            _ => false,
        }
    }

    /// One line that says what the request is for.
    pub fn to_help_string(&self) -> (r: String)
        ensures
            r@ == request_help(self@),
    {
        match self {
            Command::GraphCommand(c) => c.to_help_string(),
            Command::ShowHelp => String::from_str("display this help"),
            Command::Search { sub_label } => join3(
                "search for <",
                sub_label.as_str(),
                "> and highlight matching nodes",
            ),
            Command::PrintDot => String::from_str(
                "print the dot definition for this graph to the terminal",
            ),
            Command::PrintJson => String::from_str(
                "print the json definition for this graph to the terminal",
            ),
            Command::RenameNodeUnlabelled { id } => join3(
                "rename <",
                id.as_str(),
                "> but no new label text supplied",
            ),
            Command::Save => String::from_str("save the graph to disc"),
            Command::CriticalPathAnalysis { variable_name } => join3(
                "do a critical path analysis on the graph using <",
                variable_name.as_str(),
                "> as the cost",
            ),
            Command::CostAnalysis { variable_name } => join3(
                "sum the cost of all nodes in the graph using <",
                variable_name.as_str(),
                "> as the cost",
            ),
            Command::Show => String::from_str("open the diagram in Gapplin"),
            Command::Exit => String::from_str("exit microdot"),
            Command::ParseError { line } => join3("could not parse: \"", line.as_str(), "\""),
        }
    }
}

/// A space, a tab, or one of the two characters that end a line.
pub open spec fn is_blank(c: char) -> bool {
    c == ' ' || c == '\t' || c == '\n' || c == '\r'
}

/// A character with which an identifier may start: a letter or an underscore.
pub open spec fn is_id_start(c: char) -> bool {
    is_letter(c) || c == '_'
}

/// A character of an identifier: a letter, a digit or an underscore.
pub open spec fn is_id_char(c: char) -> bool {
    is_letter(c) || ('0' <= c && c <= '9') || c == '_'
}

/// Where the blanks that start at `from` end.
pub open spec fn blank_end(s: Seq<char>, from: int) -> int
    decreases s.len() - from,
{
    if from < 0 || from >= s.len() || !is_blank(s[from]) {
        from
    } else {
        blank_end(s, from + 1)
    }
}

/// Where the identifier characters that start at `from` end.
pub open spec fn id_end(s: Seq<char>, from: int) -> int
    decreases s.len() - from,
{
    if from < 0 || from >= s.len() || !is_id_char(s[from]) {
        from
    } else {
        id_end(s, from + 1)
    }
}

/// Where the line that `from` is in ends.
pub open spec fn line_end(s: Seq<char>, from: int) -> int
    decreases s.len() - from,
{
    if from < 0 || from >= s.len() || s[from] == '\n' || s[from] == '\r' {
        from
    } else {
        line_end(s, from + 1)
    }
}

/// Where the text goes on after the keyword `word`, which may have blanks
/// before and after it, if the text starts with that keyword.
pub open spec fn after_keyword(s: Seq<char>, word: Seq<char>) -> Option<int> {
    if blank_end(s, 0) + word.len() <= s.len() && occurs_at(s, word, blank_end(s, 0)) {
        Some(blank_end(s, blank_end(s, 0) + word.len()))
    } else {
        None
    }
}

/// The identifier at `at`, which may have blanks before and after it, and
/// where the text goes on after it.
pub open spec fn id_at(s: Seq<char>, at: int) -> Option<(Seq<char>, int)> {
    if 0 <= blank_end(s, at) < s.len() && is_id_start(s[blank_end(s, at)]) {
        Some(
            (
                s.subrange(blank_end(s, at), id_end(s, blank_end(s, at) + 1)),
                blank_end(s, id_end(s, blank_end(s, at) + 1)),
            ),
        )
    } else {
        None
    }
}

/// The label at `at`: the rest of the line, which must not be empty.
pub open spec fn label_at(s: Seq<char>, at: int) -> Option<Seq<char>> {
    if 0 <= at < line_end(s, at) <= s.len() {
        Some(s.subrange(at, line_end(s, at)))
    } else {
        None
    }
}

/// A keyword and then a label.
pub open spec fn keyword_label(s: Seq<char>, word: Seq<char>) -> Option<Seq<char>> {
    match after_keyword(s, word) {
        Some(at) => label_at(s, at),
        None => None,
    }
}

/// A keyword and then an identifier; with it, where the text goes on.
pub open spec fn keyword_id(s: Seq<char>, word: Seq<char>) -> Option<(Seq<char>, int)> {
    match after_keyword(s, word) {
        Some(at) => id_at(s, at),
        None => None,
    }
}

/// A keyword, an identifier and then a label.
pub open spec fn keyword_id_label(s: Seq<char>, word: Seq<char>) -> Option<
    (Seq<char>, Seq<char>),
> {
    match keyword_id(s, word) {
        Some((id, at)) => match label_at(s, at) {
            Some(label) => Some((id, label)),
            None => None,
        },
        None => None,
    }
}

/// A keyword and then two identifiers.
pub open spec fn keyword_id_id(s: Seq<char>, word: Seq<char>) -> Option<(Seq<char>, Seq<char>)> {
    match keyword_id(s, word) {
        Some((first, at)) => match id_at(s, at) {
            Some((second, _)) => Some((first, second)),
            None => None,
        },
        None => None,
    }
}

/// What the line `s` asks for. The forms are tried in this order, and the
/// first that the line starts with decides: `i label`; `dk id` and `d id`,
/// which delete a node with and without keeping it bridged; `sel id`;
/// `l id id`; `u id`; `r id label` and `r id`; `lr`; `tb`; `exp id label`;
/// `aft id label`; `bef id label`; `exit`; `help` or `h`; `print` or `p`;
/// `json` or `j`; `save`; `show`; `crit name`; `cost name`; `search label`,
/// `s label` or `/label`. A line of no form is an error.
pub open spec fn parse_model(s: Seq<char>) -> RequestModel {
    if keyword_label(s, "i"@) is Some {
        RequestModel::GraphCommand(
            CommandModel::InsertNode { label: keyword_label(s, "i"@).unwrap() },
        )
    } else if keyword_id(s, "dk"@) is Some {
        RequestModel::GraphCommand(
            CommandModel::DeleteNode { id: keyword_id(s, "dk"@).unwrap().0, keep_edges: true },
        )
    } else if keyword_id(s, "d"@) is Some {
        RequestModel::GraphCommand(
            CommandModel::DeleteNode { id: keyword_id(s, "d"@).unwrap().0, keep_edges: false },
        )
    } else if keyword_id(s, "sel"@) is Some {
        RequestModel::GraphCommand(
            CommandModel::SelectNode { id: keyword_id(s, "sel"@).unwrap().0 },
        )
    } else if keyword_id_id(s, "l"@) is Some {
        RequestModel::GraphCommand(
            CommandModel::LinkEdge {
                from: keyword_id_id(s, "l"@).unwrap().0,
                to: keyword_id_id(s, "l"@).unwrap().1,
            },
        )
    } else if keyword_id(s, "u"@) is Some {
        RequestModel::GraphCommand(CommandModel::UnlinkEdge { id: keyword_id(s, "u"@).unwrap().0 })
    } else if keyword_id_label(s, "r"@) is Some {
        RequestModel::GraphCommand(
            CommandModel::RenameNode {
                id: keyword_id_label(s, "r"@).unwrap().0,
                label: keyword_id_label(s, "r"@).unwrap().1,
            },
        )
    } else if keyword_id(s, "r"@) is Some {
        RequestModel::RenameNodeUnlabelled { id: keyword_id(s, "r"@).unwrap().0 }
    } else if after_keyword(s, "lr"@) is Some {
        RequestModel::GraphCommand(CommandModel::SetDirection { is_left_right: true })
    } else if after_keyword(s, "tb"@) is Some {
        RequestModel::GraphCommand(CommandModel::SetDirection { is_left_right: false })
    } else if keyword_id_label(s, "exp"@) is Some {
        RequestModel::GraphCommand(
            CommandModel::ExpandEdge {
                id: keyword_id_label(s, "exp"@).unwrap().0,
                label: keyword_id_label(s, "exp"@).unwrap().1,
            },
        )
    } else if keyword_id_label(s, "aft"@) is Some {
        RequestModel::GraphCommand(
            CommandModel::InsertAfterNode {
                id: keyword_id_label(s, "aft"@).unwrap().0,
                label: keyword_id_label(s, "aft"@).unwrap().1,
            },
        )
    } else if keyword_id_label(s, "bef"@) is Some {
        RequestModel::GraphCommand(
            CommandModel::InsertBeforeNode {
                id: keyword_id_label(s, "bef"@).unwrap().0,
                label: keyword_id_label(s, "bef"@).unwrap().1,
            },
        )
    } else if after_keyword(s, "exit"@) is Some {
        RequestModel::Exit
    } else if after_keyword(s, "help"@) is Some || after_keyword(s, "h"@) is Some {
        RequestModel::ShowHelp
    } else if after_keyword(s, "print"@) is Some || after_keyword(s, "p"@) is Some {
        RequestModel::PrintDot
    } else if after_keyword(s, "json"@) is Some || after_keyword(s, "j"@) is Some {
        RequestModel::PrintJson
    } else if after_keyword(s, "save"@) is Some {
        RequestModel::Save
    } else if after_keyword(s, "show"@) is Some {
        RequestModel::Show
    } else if keyword_id(s, "crit"@) is Some {
        RequestModel::CriticalPathAnalysis { variable_name: keyword_id(s, "crit"@).unwrap().0 }
    } else if keyword_id(s, "cost"@) is Some {
        RequestModel::CostAnalysis { variable_name: keyword_id(s, "cost"@).unwrap().0 }
    } else if keyword_label(s, "search"@) is Some {
        RequestModel::Search { sub_label: keyword_label(s, "search"@).unwrap() }
    } else if keyword_label(s, "s"@) is Some {
        RequestModel::Search { sub_label: keyword_label(s, "s"@).unwrap() }
    } else if keyword_label(s, "/"@) is Some {
        RequestModel::Search { sub_label: keyword_label(s, "/"@).unwrap() }
    } else {
        RequestModel::ParseError { line: s }
    }
}

fn blank(c: char) -> (r: bool)
    ensures
        r == is_blank(c),
{
    c == ' ' || c == '\t' || c == '\n' || c == '\r'
}

fn id_char(c: char) -> (r: bool)
    ensures
        r == is_id_char(c),
{
    crate::scan::letter(c) || ('0' <= c && c <= '9') || c == '_'
}

fn skip_blanks(s: &Vec<char>, from: usize) -> (r: usize)
    requires
        from <= s.len(),
    ensures
        r == blank_end(s@, from as int),
        from <= r <= s.len(),
{
    let mut j: usize = from;
    while j < s.len() && blank(s[j])
        invariant
            from <= j <= s.len(),
            blank_end(s@, from as int) == blank_end(s@, j as int),
        decreases s.len() - j,
    {
        j += 1;
    }
    j
}

fn skip_id(s: &Vec<char>, from: usize) -> (r: usize)
    requires
        from <= s.len(),
    ensures
        r == id_end(s@, from as int),
        from <= r <= s.len(),
{
    let mut j: usize = from;
    while j < s.len() && id_char(s[j])
        invariant
            from <= j <= s.len(),
            id_end(s@, from as int) == id_end(s@, j as int),
        decreases s.len() - j,
    {
        j += 1;
    }
    j
}

fn skip_line(s: &Vec<char>, from: usize) -> (r: usize)
    requires
        from <= s.len(),
    ensures
        r == line_end(s@, from as int),
        from <= r <= s.len(),
{
    let mut j: usize = from;
    while j < s.len() && s[j] != '\n' && s[j] != '\r'
        invariant
            from <= j <= s.len(),
            line_end(s@, from as int) == line_end(s@, j as int),
        decreases s.len() - j,
    {
        j += 1;
    }
    j
}

/// The position as specifications see it.
pub open spec fn place(at: Option<usize>) -> Option<int> {
    match at {
        Some(i) => Some(i as int),
        None => None,
    }
}

fn keyword(s: &Vec<char>, word: &str) -> (r: Option<usize>)
    ensures
        place(r) == after_keyword(s@, word@),
        r matches Some(at) ==> at <= s.len(),
{
    let w = chars_of(word);
    let start = skip_blanks(s, 0);
    if w.len() <= s.len() - start && matches_at(s, &w, start) {
        Some(skip_blanks(s, start + w.len()))
    } else {
        None
    }
}

/// An identifier and the position after it, as specifications see them.
pub open spec fn id_place(found: Option<(Vec<char>, usize)>) -> Option<(Seq<char>, int)> {
    match found {
        Some((id, at)) => Some((id@, at as int)),
        None => None,
    }
}

fn identifier(s: &Vec<char>, at: usize) -> (r: Option<(Vec<char>, usize)>)
    requires
        at <= s.len(),
    ensures
        id_place(r) == id_at(s@, at as int),
        r matches Some((_, next)) ==> next <= s.len(),
{
    let start = skip_blanks(s, at);
    if start < s.len() && (crate::scan::letter(s[start]) || s[start] == '_') {
        let end = skip_id(s, start + 1);
        Some((copy_range(s, start, end), skip_blanks(s, end)))
    } else {
        None
    }
}

/// A text as specifications see it.
pub open spec fn chars_view(found: Option<Vec<char>>) -> Option<Seq<char>> {
    match found {
        Some(v) => Some(v@),
        None => None,
    }
}

fn label(s: &Vec<char>, at: usize) -> (r: Option<Vec<char>>)
    requires
        at <= s.len(),
    ensures
        chars_view(r) == label_at(s@, at as int),
{
    let end = skip_line(s, at);
    if end > at {
        Some(copy_range(s, at, end))
    } else {
        None
    }
}

fn with_label(s: &Vec<char>, word: &str) -> (r: Option<Vec<char>>)
    ensures
        chars_view(r) == keyword_label(s@, word@),
{
    match keyword(s, word) {
        Some(at) => label(s, at),
        None => None,
    }
}

fn with_id(s: &Vec<char>, word: &str) -> (r: Option<(Vec<char>, usize)>)
    ensures
        id_place(r) == keyword_id(s@, word@),
        r matches Some((_, next)) ==> next <= s.len(),
{
    match keyword(s, word) {
        Some(at) => identifier(s, at),
        None => None,
    }
}

/// Two texts as specifications see them.
pub open spec fn pair_view(found: Option<(Vec<char>, Vec<char>)>) -> Option<
    (Seq<char>, Seq<char>),
> {
    match found {
        Some((a, b)) => Some((a@, b@)),
        None => None,
    }
}

fn with_id_label(s: &Vec<char>, word: &str) -> (r: Option<(Vec<char>, Vec<char>)>)
    ensures
        pair_view(r) == keyword_id_label(s@, word@),
{
    match with_id(s, word) {
        Some((id, at)) => match label(s, at) {
            Some(text) => Some((id, text)),
            None => None,
        },
        None => None,
    }
}

fn with_id_id(s: &Vec<char>, word: &str) -> (r: Option<(Vec<char>, Vec<char>)>)
    ensures
        pair_view(r) == keyword_id_id(s@, word@),
{
    match with_id(s, word) {
        Some((first, at)) => match identifier(s, at) {
            Some((second, _)) => Some((first, second)),
            None => None,
        },
        None => None,
    }
}

fn id_of(v: &Vec<char>) -> (r: Id)
    ensures
        r@ == v@,
{
    Id::new(string_of(v).as_str())
}

fn label_of(v: &Vec<char>) -> (r: Label)
    ensures
        r@ == v@,
{
    Label::new(string_of(v).as_str())
}

/// What the line asks for.
pub fn parse_line(line: Line) -> (r: Command)
    ensures
        r@ == parse_model(line@),
{
    let s = line.chars();
    if let Some(text) = with_label(&s, "i") {
        return Command::GraphCommand(GraphCommand::InsertNode { label: label_of(&text) });
    }
    if let Some((id, _)) = with_id(&s, "dk") {
        return Command::GraphCommand(
            GraphCommand::DeleteNode { id: id_of(&id), keep_edges: true },
        );
    }
    if let Some((id, _)) = with_id(&s, "d") {
        return Command::GraphCommand(
            GraphCommand::DeleteNode { id: id_of(&id), keep_edges: false },
        );
    }
    if let Some((id, _)) = with_id(&s, "sel") {
        return Command::GraphCommand(GraphCommand::SelectNode { id: id_of(&id) });
    }
    if let Some((from, to)) = with_id_id(&s, "l") {
        return Command::GraphCommand(
            GraphCommand::LinkEdge { from: id_of(&from), to: id_of(&to) },
        );
    }
    if let Some((id, _)) = with_id(&s, "u") {
        return Command::GraphCommand(GraphCommand::UnlinkEdge { id: id_of(&id) });
    }
    if let Some((id, text)) = with_id_label(&s, "r") {
        return Command::GraphCommand(
            GraphCommand::RenameNode { id: id_of(&id), label: label_of(&text) },
        );
    }
    if let Some((id, _)) = with_id(&s, "r") {
        return Command::RenameNodeUnlabelled { id: id_of(&id) };
    }
    if keyword(&s, "lr").is_some() {
        return Command::GraphCommand(GraphCommand::SetDirection { is_left_right: true });
    }
    if keyword(&s, "tb").is_some() {
        return Command::GraphCommand(GraphCommand::SetDirection { is_left_right: false });
    }
    if let Some((id, text)) = with_id_label(&s, "exp") {
        return Command::GraphCommand(
            GraphCommand::ExpandEdge { id: id_of(&id), label: label_of(&text) },
        );
    }
    if let Some((id, text)) = with_id_label(&s, "aft") {
        return Command::GraphCommand(
            GraphCommand::InsertAfterNode { id: id_of(&id), label: label_of(&text) },
        );
    }
    if let Some((id, text)) = with_id_label(&s, "bef") {
        return Command::GraphCommand(
            GraphCommand::InsertBeforeNode { id: id_of(&id), label: label_of(&text) },
        );
    }
    if keyword(&s, "exit").is_some() {
        return Command::Exit;
    }
    if keyword(&s, "help").is_some() || keyword(&s, "h").is_some() {
        return Command::ShowHelp;
    }
    if keyword(&s, "print").is_some() || keyword(&s, "p").is_some() {
        return Command::PrintDot;
    }
    if keyword(&s, "json").is_some() || keyword(&s, "j").is_some() {
        return Command::PrintJson;
    }
    if keyword(&s, "save").is_some() {
        return Command::Save;
    }
    if keyword(&s, "show").is_some() {
        return Command::Show;
    }
    if let Some((name, _)) = with_id(&s, "crit") {
        return Command::CriticalPathAnalysis { variable_name: string_of(&name) };
    }
    if let Some((name, _)) = with_id(&s, "cost") {
        return Command::CostAnalysis { variable_name: string_of(&name) };
    }
    if let Some(text) = with_label(&s, "search") {
        return Command::Search { sub_label: label_of(&text) };
    }
    if let Some(text) = with_label(&s, "s") {
        return Command::Search { sub_label: label_of(&text) };
    }
    if let Some(text) = with_label(&s, "/") {
        return Command::Search { sub_label: label_of(&text) };
    }
    Command::ParseError { line }
}

} // verus!
