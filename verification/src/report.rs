use vstd::prelude::*;
use vstd::string::StringExecFns;
use crate::decimal::{decimal_rep, u64_to_decimal};
use crate::fetch::{PullRequestModel, PullRequestSummary};
use crate::parse::{list_functions, listed_names, parses, ParseError};

verus! {

/// Whether a changed source file is present in the local working tree,
/// and its text when it is.
pub enum LocalStatus {
    Present { source: String },
    Absent,
}

/// The model of a `LocalStatus`.
pub enum LocalStatusModel {
    Present { source: Seq<char> },
    Absent,
}

impl View for LocalStatus {
    type V = LocalStatusModel;

    open spec fn view(&self) -> LocalStatusModel {
        match self {
            LocalStatus::Present { source } => LocalStatusModel::Present { source: source@ },
            LocalStatus::Absent => LocalStatusModel::Absent,
        }
    }
}

/// A changed source file as the report builder receives it: its path, and
/// whether it is present locally.
pub struct SourceFileEntry {
    pub path: String,
    pub status: LocalStatus,
}

/// The model of a `SourceFileEntry`.
pub struct SourceFileModel {
    pub path: Seq<char>,
    pub status: LocalStatusModel,
}

impl View for SourceFileEntry {
    type V = SourceFileModel;

    open spec fn view(&self) -> SourceFileModel {
        SourceFileModel { path: self.path@, status: self.status@ }
    }
}

/// Whether the lister can work through `e`: an absent file is reported,
/// never parsed, while a present one must hold syntactically valid text.
pub open spec fn entry_parses(e: SourceFileModel) -> bool {
    match e.status {
        LocalStatusModel::Present { source } => parses(source),
        LocalStatusModel::Absent => true,
    }
}

/// The path of the first present entry whose text does not parse, if
/// there is one: the file on which a run aborts.
pub open spec fn first_parse_failure(entries: Seq<SourceFileModel>) -> Option<Seq<char>>
    decreases entries.len(),
{
    if entries.len() == 0 {
        None
    } else if !entry_parses(entries.first()) {
        Some(entries.first().path)
    } else {
        first_parse_failure(entries.drop_first())
    }
}

/// The report's first line: `# PR <number>: <title>`.
pub open spec fn header_line(pr: PullRequestModel) -> Seq<char> {
    "# PR "@ + decimal_rep(pr.number as nat) + ": "@ + pr.title
}

/// A line of the form `- <text>`, used for the changed-file listing and
/// for each function name.
pub open spec fn dash_line(text: Seq<char>) -> Seq<char> {
    "- "@ + text
}

/// The heading of one present file's section: `## functions (<path>)`.
pub open spec fn section_heading(path: Seq<char>) -> Seq<char> {
    "## functions ("@ + path + ")"@
}

/// The notice for a changed source file that is not present locally.
pub open spec fn notice_line(path: Seq<char>) -> Seq<char> {
    "(notice: file not present locally: "@ + path + ")"@
}

/// The `- <path>` lines naming every changed source file, in order.
pub open spec fn listing_lines(entries: Seq<SourceFileModel>) -> Seq<Seq<char>>
    decreases entries.len(),
{
    if entries.len() == 0 {
        Seq::<Seq<char>>::empty()
    } else {
        listing_lines(entries.drop_last()) + seq![dash_line(entries.last().path)]
    }
}

/// One `- <name>` line for each listed function name, in order.
pub open spec fn name_lines(names: Seq<Seq<char>>) -> Seq<Seq<char>>
    decreases names.len(),
{
    if names.len() == 0 {
        Seq::<Seq<char>>::empty()
    } else {
        name_lines(names.drop_last()) + seq![dash_line(names.last())]
    }
}

/// The lines one entry contributes after the listing: a functions section
/// for a present file, the notice for an absent one.
pub open spec fn entry_lines(e: SourceFileModel) -> Seq<Seq<char>>
    recommends
        entry_parses(e),
{
    match e.status {
        LocalStatusModel::Present { source } => seq![section_heading(e.path)] + name_lines(
            listed_names(source),
        ),
        LocalStatusModel::Absent => seq![notice_line(e.path)],
    }
}

/// The per-file sections and notices, in changed-file order.
pub open spec fn section_lines(entries: Seq<SourceFileModel>) -> Seq<Seq<char>>
    decreases entries.len(),
{
    if entries.len() == 0 {
        Seq::<Seq<char>>::empty()
    } else {
        section_lines(entries.drop_last()) + entry_lines(entries.last())
    }
}

/// The whole report, defined when every present entry parses: the header,
/// the changed-file listing, then each file's section or notice in order.
pub open spec fn report_lines(pr: PullRequestModel, entries: Seq<SourceFileModel>) -> Seq<
    Seq<char>,
>
    recommends
        first_parse_failure(entries) is None,
{
    seq![header_line(pr), "changed files:"@] + listing_lines(entries) + section_lines(entries)
}

/// Render the report's header for `pr`.
fn header(pr: &PullRequestSummary) -> (line: String)
    ensures
        line@ == header_line(pr@),
{
    let mut line: String = String::from_str("# PR ");
    let num: String = u64_to_decimal(pr.number);
    line.append(num.as_str());
    line.append(": ");
    line.append(pr.title.as_str());
    proof {
        assert(line@ =~= header_line(pr@));
    }
    line
}

/// Render a `- <text>` line.
fn dash(text: &String) -> (line: String)
    ensures
        line@ == dash_line(text@),
{
    let mut line: String = String::from_str("- ");
    line.append(text.as_str());
    line
}

/// Render the heading of one file's functions section.
fn heading(path: &String) -> (line: String)
    ensures
        line@ == section_heading(path@),
{
    let mut line: String = String::from_str("## functions (");
    line.append(path.as_str());
    line.append(")");
    proof {
        assert(line@ =~= section_heading(path@));
    }
    line
}

/// Render the notice for a file that is not present locally.
fn notice(path: &String) -> (line: String)
    ensures
        line@ == notice_line(path@),
{
    let mut line: String = String::from_str("(notice: file not present locally: ");
    line.append(path.as_str());
    line.append(")");
    proof {
        assert(line@ =~= notice_line(path@));
    }
    line
}

proof fn lemma_failure_at(entries: Seq<SourceFileModel>, i: int)
    requires
        0 <= i < entries.len(),
        forall|j: int| 0 <= j < i ==> entry_parses(#[trigger] entries[j]),
        !entry_parses(entries[i]),
    ensures
        first_parse_failure(entries) == Some(entries[i].path),
    decreases i,
{
    if i == 0 {
        assert(entries.first() == entries[0]);
    } else {
        assert(entry_parses(entries.first())) by {
            assert(entries.first() == entries[0]);
        }
        assert forall|j: int| 0 <= j < i - 1 implies entry_parses(
            #[trigger] entries.drop_first()[j],
        ) by {
            assert(entries.drop_first()[j] == entries[j + 1]);
        }
        assert(entries.drop_first()[i - 1] == entries[i]);
        lemma_failure_at(entries.drop_first(), i - 1);
    }
}

proof fn lemma_no_failure(entries: Seq<SourceFileModel>)
    requires
        forall|j: int| 0 <= j < entries.len() ==> entry_parses(#[trigger] entries[j]),
    ensures
        first_parse_failure(entries) is None,
    decreases entries.len(),
{
    if entries.len() > 0 {
        assert(entry_parses(entries.first())) by {
            assert(entries.first() == entries[0]);
        }
        assert forall|j: int| 0 <= j < entries.drop_first().len() implies entry_parses(
            #[trigger] entries.drop_first()[j],
        ) by {
            assert(entries.drop_first()[j] == entries[j + 1]);
        }
        lemma_no_failure(entries.drop_first());
    }
}

/// A changed source file that is absent locally is reported and nothing
/// more: an absent entry always passes the parse gate, its only line is
/// the not-present notice — it contributes no function names — and
/// removing it leaves the first parse failure, on which a run aborts,
/// unchanged: the files after it are processed as if it were not there.
pub proof fn lemma_absent_entry_reported(entries: Seq<SourceFileModel>, i: int)
    requires
        0 <= i < entries.len(),
        entries[i].status is Absent,
    ensures
        entry_parses(entries[i]),
        entry_lines(entries[i]) == seq![notice_line(entries[i].path)],
        first_parse_failure(entries) == first_parse_failure(entries.remove(i)),
    decreases entries.len(),
{
    if i == 0 {
        assert(entries.first() == entries[0]);
        assert(entries.remove(0) =~= entries.drop_first());
    } else {
        assert(entries.remove(i).first() == entries.first()) by {
            assert(entries.remove(i)[0] == entries[0]);
        }
        if entry_parses(entries.first()) {
            assert(entries.drop_first()[i - 1] == entries[i]);
            lemma_absent_entry_reported(entries.drop_first(), i - 1);
            assert(entries.drop_first().remove(i - 1) =~= entries.remove(i).drop_first());
        }
    }
}

/// Build the whole report of one run: the header, the list of the changed
/// source files, and then, in changed-file order, a functions section for
/// each file present locally and a notice for each file that is not.
/// Fails, naming the file's path, exactly when some present file's text
/// does not parse — the first such file in order.
pub fn build_report(pr: &PullRequestSummary, files: &Vec<SourceFileEntry>) -> (r: Result<
    Vec<String>,
    ParseError,
>)
    ensures
        match r {
            Ok(lines) => first_parse_failure(files@.map_values(|e: SourceFileEntry| e@)) is None
                && lines@.map_values(|s: String| s@) == report_lines(
                pr@,
                files@.map_values(|e: SourceFileEntry| e@),
            ),
            Err(err) => first_parse_failure(files@.map_values(|e: SourceFileEntry| e@)) == Some(
                err.path@,
            ),
        },
{
    let ghost model: Seq<SourceFileModel> = files@.map_values(|e: SourceFileEntry| e@);
    let ghost prefix: Seq<Seq<char>> = seq![header_line(pr@), "changed files:"@];
    let mut lines: Vec<String> = Vec::new();
    lines.push(header(pr));
    lines.push(String::from_str("changed files:"));
    proof {
        assert(lines@.map_values(|s: String| s@) =~= prefix);
    }
    for i in 0..files.len()
        invariant
            model == files@.map_values(|e: SourceFileEntry| e@),
            prefix == seq![header_line(pr@), "changed files:"@],
            lines@.map_values(|s: String| s@) == prefix + listing_lines(model.take(i as int)),
    {
        let ghost before: Seq<String> = lines@;
        lines.push(dash(&files[i].path));
        proof {
            assert(lines@.map_values(|s: String| s@) =~= before.map_values(|s: String| s@).push(
                dash_line(model[i as int].path),
            ));
            assert(model.take(i + 1).drop_last() =~= model.take(i as int));
            assert(model.take(i + 1).last() == model[i as int]);
            assert(lines@.map_values(|s: String| s@) =~= prefix + listing_lines(model.take(i + 1)));
        }
    }
    proof {
        assert(model.take(model.len() as int) =~= model);
    }
    let ghost listed: Seq<Seq<char>> = prefix + listing_lines(model);
    for i in 0..files.len()
        invariant
            model == files@.map_values(|e: SourceFileEntry| e@),
            prefix == seq![header_line(pr@), "changed files:"@],
            listed == prefix + listing_lines(model),
            forall|j: int| 0 <= j < i ==> entry_parses(#[trigger] model[j]),
            lines@.map_values(|s: String| s@) == listed + section_lines(model.take(i as int)),
    {
        let ghost before_entry: Seq<Seq<char>> = lines@.map_values(|s: String| s@);
        match &files[i].status {
            LocalStatus::Present { source } => {
                match list_functions(&files[i].path, source.as_str()) {
                    Ok(names) => {
                        let ghost b0: Seq<String> = lines@;
                        lines.push(heading(&files[i].path));
                        proof {
                            assert(lines@.map_values(|s: String| s@) =~= b0.map_values(
                                |s: String| s@,
                            ).push(section_heading(model[i as int].path)));
                        }
                        let ghost names_model: Seq<Seq<char>> = listed_names(source@);
                        for k in 0..names.len()
                            invariant
                                names_model == listed_names(source@),
                                names@.map_values(|s: String| s@) == names_model,
                                lines@.map_values(|s: String| s@) == before_entry + seq![
                                    section_heading(model[i as int].path),
                                ] + name_lines(names_model.take(k as int)),
                        {
                            let ghost b1: Seq<String> = lines@;
                            lines.push(dash(&names[k]));
                            proof {
                                assert(lines@.map_values(|s: String| s@) =~= b1.map_values(
                                    |s: String| s@,
                                ).push(dash_line(names_model[k as int])));
                                assert(names_model.take(k + 1).drop_last() =~= names_model.take(
                                    k as int,
                                ));
                                assert(names_model.take(k + 1).last() == names_model[k as int]);
                                assert(lines@.map_values(|s: String| s@) =~= before_entry + seq![
                                    section_heading(model[i as int].path),
                                ] + name_lines(names_model.take(k + 1)));
                            }
                        }
                        proof {
                            assert(names_model.take(names_model.len() as int) =~= names_model);
                            assert(entry_lines(model[i as int]) =~= seq![
                                section_heading(model[i as int].path),
                            ] + name_lines(names_model));
                            assert(lines@.map_values(|s: String| s@) =~= before_entry
                                + entry_lines(model[i as int]));
                        }
                    },
                    Err(err) => {
                        proof {
                            lemma_failure_at(model, i as int);
                        }
                        return Err(err);
                    },
                }
            },
            LocalStatus::Absent => {
                let ghost b0: Seq<String> = lines@;
                lines.push(notice(&files[i].path));
                proof {
                    assert(lines@.map_values(|s: String| s@) =~= b0.map_values(|s: String| s@).push(
                        notice_line(model[i as int].path),
                    ));
                    assert(lines@.map_values(|s: String| s@) =~= before_entry + entry_lines(
                        model[i as int],
                    ));
                }
            },
        }
        proof {
            assert(model.take(i + 1).drop_last() =~= model.take(i as int));
            assert(model.take(i + 1).last() == model[i as int]);
            assert(lines@.map_values(|s: String| s@) =~= listed + section_lines(model.take(i + 1)));
        }
    }
    proof {
        assert(model.take(model.len() as int) =~= model);
        lemma_no_failure(model);
        assert(lines@.map_values(|s: String| s@) =~= report_lines(pr@, model));
    }
    Ok(lines)
}

} // verus!
