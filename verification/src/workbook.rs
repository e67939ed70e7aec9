use vstd::prelude::*;
use vstd::string::*;

use crate::error::AppError;
use crate::export::{clock_failure_message, is_readable_timestamp, local_now_formatted};
use crate::lottery::DrawResponse;

verus! {

// ---------------------------------------------------------------------------
// The plan of a workbook, as the writer carries it out step by step
// ---------------------------------------------------------------------------

/// How a cell is drawn.
#[derive(Clone, Copy, PartialEq, Eq, Structural, Debug)]
pub enum CellStyle {
    /// No format.
    Plain,
    /// Bold, size 12: the labels of the summary.
    Bold,
    /// Bold white on blue, centred, thin border: column headers.
    Header,
    /// Thin border, left aligned: the rows of a list.
    Body,
    /// Bold, size 16, centred: the title.
    Title,
}

/// What a cell holds.
#[derive(Debug)]
pub enum CellValue {
    Text(String),
    Number(usize),
}

/// One call on a worksheet.
#[derive(Debug)]
pub enum SheetOp {
    /// Sets the width of columns `first_col..=last_col`.
    SetColumn { first_col: u16, last_col: u16, width: u16 },
    /// Merges a range of cells and writes `text` in it.
    MergeRange {
        first_row: u32,
        first_col: u16,
        last_row: u32,
        last_col: u16,
        text: String,
        style: CellStyle,
    },
    /// Writes one cell.
    WriteCell { row: u32, col: u16, value: CellValue, style: CellStyle },
}

/// A worksheet call and what its failure is reported as.
#[derive(Debug)]
pub struct SheetStep {
    pub op: SheetOp,
    pub failure: String,
}

/// A worksheet: its name, what a failure to add it is reported as, and its calls in order.
#[derive(Debug)]
pub struct SheetPlan {
    pub name: String,
    pub failure: String,
    pub steps: Vec<SheetStep>,
}

/// A workbook: what a failure to create or to save it is reported as, and its sheets in order.
#[derive(Debug)]
pub struct WorkbookPlan {
    pub open_failure: String,
    pub sheets: Vec<SheetPlan>,
    pub close_failure: String,
}

// ---------------------------------------------------------------------------
// The model of a plan
// ---------------------------------------------------------------------------

pub enum ValueModel {
    Text(Seq<char>),
    Number(nat),
}

pub enum OpModel {
    SetColumn { first_col: nat, last_col: nat, width: nat },
    MergeRange {
        first_row: nat,
        first_col: nat,
        last_row: nat,
        last_col: nat,
        text: Seq<char>,
        style: CellStyle,
    },
    WriteCell { row: nat, col: nat, value: ValueModel, style: CellStyle },
}

pub struct StepModel {
    pub op: OpModel,
    pub failure: Seq<char>,
}

pub struct SheetModel {
    pub name: Seq<char>,
    pub failure: Seq<char>,
    pub steps: Seq<StepModel>,
}

pub struct WorkbookModel {
    pub open_failure: Seq<char>,
    pub sheets: Seq<SheetModel>,
    pub close_failure: Seq<char>,
}

impl View for CellValue {
    type V = ValueModel;

    open spec fn view(&self) -> ValueModel {
        match self {
            CellValue::Text(s) => ValueModel::Text(s@),
            CellValue::Number(n) => ValueModel::Number(*n as nat),
        }
    }
}

impl View for SheetOp {
    type V = OpModel;

    open spec fn view(&self) -> OpModel {
        match self {
            SheetOp::SetColumn { first_col, last_col, width } => OpModel::SetColumn {
                first_col: *first_col as nat,
                last_col: *last_col as nat,
                width: *width as nat,
            },
            SheetOp::MergeRange { first_row, first_col, last_row, last_col, text, style } =>
                OpModel::MergeRange {
                first_row: *first_row as nat,
                first_col: *first_col as nat,
                last_row: *last_row as nat,
                last_col: *last_col as nat,
                text: text@,
                style: *style,
            },
            SheetOp::WriteCell { row, col, value, style } => OpModel::WriteCell {
                row: *row as nat,
                col: *col as nat,
                value: value@,
                style: *style,
            },
        }
    }
}

impl View for SheetStep {
    type V = StepModel;

    open spec fn view(&self) -> StepModel {
        StepModel { op: self.op@, failure: self.failure@ }
    }
}

/// The models of a sequence of steps.
pub open spec fn steps_model(steps: Seq<SheetStep>) -> Seq<StepModel> {
    steps.map_values(|s: SheetStep| s@)
}

impl View for SheetPlan {
    type V = SheetModel;

    open spec fn view(&self) -> SheetModel {
        SheetModel { name: self.name@, failure: self.failure@, steps: steps_model(self.steps@) }
    }
}

impl View for WorkbookPlan {
    type V = WorkbookModel;

    open spec fn view(&self) -> WorkbookModel {
        WorkbookModel {
            open_failure: self.open_failure@,
            sheets: self.sheets@.map_values(|s: SheetPlan| s@),
            close_failure: self.close_failure@,
        }
    }
}

// ---------------------------------------------------------------------------
// The layout of the export
// ---------------------------------------------------------------------------

pub open spec fn column_step(first_col: nat, last_col: nat, width: nat) -> StepModel {
    StepModel {
        op: OpModel::SetColumn { first_col, last_col, width },
        failure: "设置列宽失败"@,
    }
}

pub open spec fn text_step(
    row: nat,
    col: nat,
    text: Seq<char>,
    style: CellStyle,
    failure: Seq<char>,
) -> StepModel {
    StepModel { op: OpModel::WriteCell { row, col, value: ValueModel::Text(text), style }, failure }
}

pub open spec fn number_step(
    row: nat,
    col: nat,
    n: nat,
    style: CellStyle,
    failure: Seq<char>,
) -> StepModel {
    StepModel { op: OpModel::WriteCell { row, col, value: ValueModel::Number(n), style }, failure }
}

/// The prize of the winner in place `k` (counting from 0).
pub open spec fn rank_label(k: nat) -> Seq<char> {
    if k == 0 {
        "一等奖"@
    } else if k == 1 {
        "二等奖"@
    } else if k == 2 {
        "三等奖"@
    } else {
        "幸运奖"@
    }
}

/// The row of the winner in place `k`: number, name and prize, from the fourth row on.
pub open spec fn winner_row(k: nat, name: Seq<char>) -> Seq<StepModel> {
    seq![
        number_step(k + 3, 0, k + 1, CellStyle::Body, "写入序号失败"@),
        text_step(k + 3, 1, name, CellStyle::Body, "写入用户名失败"@),
        text_step(k + 3, 2, rank_label(k), CellStyle::Body, "写入中奖等级失败"@),
    ]
}

/// The rows of all winners, in order.
pub open spec fn winner_rows(winners: Seq<Seq<char>>) -> Seq<StepModel>
    decreases winners.len(),
{
    if winners.len() == 0 {
        Seq::empty()
    } else {
        winner_rows(winners.drop_last()) + winner_row(
            (winners.len() - 1) as nat,
            winners.last(),
        )
    }
}

/// Column widths, title and headers of the winners' sheet.
pub open spec fn winners_head() -> Seq<StepModel> {
    seq![
        column_step(0, 0, 8),
        column_step(1, 1, 25),
        column_step(2, 2, 20),
        StepModel {
            op: OpModel::MergeRange {
                first_row: 0,
                first_col: 0,
                last_row: 0,
                last_col: 2,
                text: "🎉 抽奖活动中奖名单"@,
                style: CellStyle::Title,
            },
            failure: "写入标题失败"@,
        },
        text_step(2, 0, "序号"@, CellStyle::Header, "写入表头失败"@),
        text_step(2, 1, "用户名"@, CellStyle::Header, "写入表头失败"@),
        text_step(2, 2, "中奖等级"@, CellStyle::Header, "写入表头失败"@),
    ]
}

/// The summary under the winners, one row below the last row that `winner_count` makes room for.
pub open spec fn summary_rows(r: DrawResponse, drawn_at: Seq<char>) -> Seq<StepModel> {
    let row = (r.winner_count + 4) as nat;
    seq![
        text_step(row, 0, "抽奖时间"@, CellStyle::Bold, "写入信息失败"@),
        text_step(row, 1, drawn_at, CellStyle::Plain, "写入信息失败"@),
        text_step(row + 1, 0, "参与人数"@, CellStyle::Bold, "写入信息失败"@),
        number_step(row + 1, 1, r.total_participants as nat, CellStyle::Plain, "写入信息失败"@),
        text_step(row + 2, 0, "去重人数"@, CellStyle::Bold, "写入信息失败"@),
        number_step(row + 2, 1, r.unique_participants as nat, CellStyle::Plain, "写入信息失败"@),
        text_step(row + 3, 0, "中奖人数"@, CellStyle::Bold, "写入信息失败"@),
        number_step(row + 3, 1, r.winner_count as nat, CellStyle::Plain, "写入信息失败"@),
    ]
}

/// The sheet of winners of the draw `r`, drawn at the time `drawn_at`.
pub open spec fn winners_sheet(r: DrawResponse, drawn_at: Seq<char>) -> SheetModel {
    SheetModel {
        name: "中奖名单"@,
        failure: "创建工作表失败"@,
        steps: winners_head() + winner_rows(r.winners.deep_view()) + summary_rows(r, drawn_at),
    }
}

/// The row of the participant in place `k`: number and name, from the second row on.
pub open spec fn participant_row(k: nat, name: Seq<char>) -> Seq<StepModel> {
    seq![
        number_step(k + 1, 0, k + 1, CellStyle::Body, "写入序号失败"@),
        text_step(k + 1, 1, name, CellStyle::Body, "写入用户名失败"@),
    ]
}

/// The rows of all participants, in order.
pub open spec fn participant_rows(names: Seq<Seq<char>>) -> Seq<StepModel>
    decreases names.len(),
{
    if names.len() == 0 {
        Seq::empty()
    } else {
        participant_rows(names.drop_last()) + participant_row(
            (names.len() - 1) as nat,
            names.last(),
        )
    }
}

pub open spec fn participants_head() -> Seq<StepModel> {
    seq![
        column_step(0, 0, 8),
        column_step(1, 1, 30),
        text_step(0, 0, "序号"@, CellStyle::Header, "写入表头失败"@),
        text_step(0, 1, "用户名"@, CellStyle::Header, "写入表头失败"@),
    ]
}

/// The sheet of everyone who took part, repeats included, in the order given.
pub open spec fn participants_sheet(names: Seq<Seq<char>>) -> SheetModel {
    SheetModel {
        name: "参与名单"@,
        failure: "创建工作表失败"@,
        steps: participants_head() + participant_rows(names),
    }
}

/// The workbook exported for the draw `r` among `names`, drawn at `drawn_at`.
pub open spec fn export_workbook(
    r: DrawResponse,
    names: Seq<Seq<char>>,
    drawn_at: Seq<char>,
) -> WorkbookModel {
    WorkbookModel {
        open_failure: "创建 Excel 工作簿失败"@,
        sheets: seq![winners_sheet(r, drawn_at), participants_sheet(names)],
        close_failure: "保存 Excel 文件失败"@,
    }
}

// ---------------------------------------------------------------------------
// Building the plan
// ---------------------------------------------------------------------------

fn set_column(first_col: u16, last_col: u16, width: u16) -> (s: SheetStep)
    ensures
        s@ == column_step(first_col as nat, last_col as nat, width as nat),
{
    SheetStep {
        op: SheetOp::SetColumn { first_col, last_col, width },
        failure: String::from_str("设置列宽失败"),
    }
}

fn write_text(row: u32, col: u16, text: &str, style: CellStyle, failure: &str) -> (s: SheetStep)
    ensures
        s@ == text_step(row as nat, col as nat, text@, style, failure@),
{
    SheetStep {
        op: SheetOp::WriteCell {
            row,
            col,
            value: CellValue::Text(String::from_str(text)),
            style,
        },
        failure: String::from_str(failure),
    }
}

fn write_number(row: u32, col: u16, n: usize, style: CellStyle, failure: &str) -> (s: SheetStep)
    ensures
        s@ == number_step(row as nat, col as nat, n as nat, style, failure@),
{
    SheetStep {
        op: SheetOp::WriteCell { row, col, value: CellValue::Number(n), style },
        failure: String::from_str(failure),
    }
}

fn push_step(steps: &mut Vec<SheetStep>, step: SheetStep)
    ensures
        steps_model(final(steps)@) == steps_model(old(steps)@).push(step@),
{
    steps.push(step);
    proof {
        assert(steps_model(steps@) =~= steps_model(old(steps)@).push(step@));
    }
}

fn rank_text(k: usize) -> (s: &'static str)
    ensures
        s@ == rank_label(k as nat),
{
    if k == 0 {
        "一等奖"
    } else if k == 1 {
        "二等奖"
    } else if k == 2 {
        "三等奖"
    } else {
        "幸运奖"
    }
}

/// Lays out the winners' sheet of the draw `r`, drawn at `drawn_at`.
pub fn winners_sheet_plan(r: &DrawResponse, drawn_at: &str) -> (sheet: SheetPlan)
    requires
        r.winners.len() + 3 <= u32::MAX,
        r.winner_count + 7 <= u32::MAX,
    ensures
        sheet@ == winners_sheet(*r, drawn_at@),
{
    let mut steps: Vec<SheetStep> = Vec::new();
    push_step(&mut steps, set_column(0, 0, 8));
    push_step(&mut steps, set_column(1, 1, 25));
    push_step(&mut steps, set_column(2, 2, 20));
    push_step(
        &mut steps,
        SheetStep {
            op: SheetOp::MergeRange {
                first_row: 0,
                first_col: 0,
                last_row: 0,
                last_col: 2,
                text: String::from_str("🎉 抽奖活动中奖名单"),
                style: CellStyle::Title,
            },
            failure: String::from_str("写入标题失败"),
        },
    );
    push_step(&mut steps, write_text(2, 0, "序号", CellStyle::Header, "写入表头失败"));
    push_step(&mut steps, write_text(2, 1, "用户名", CellStyle::Header, "写入表头失败"));
    push_step(&mut steps, write_text(2, 2, "中奖等级", CellStyle::Header, "写入表头失败"));
    proof {
        assert(steps_model(steps@) =~= winners_head());
    }
    let ghost winners = r.winners.deep_view();
    let n = r.winners.len();
    let mut i: usize = 0;
    while i < n
        invariant
            n == r.winners.len(),
            n + 3 <= u32::MAX,
            winners == r.winners.deep_view(),
            0 <= i <= n,
            steps_model(steps@) == winners_head() + winner_rows(winners.take(i as int)),
        decreases n - i,
    {
        let row = (i + 3) as u32;
        let ghost before = steps_model(steps@);
        push_step(&mut steps, write_number(row, 0, i + 1, CellStyle::Body, "写入序号失败"));
        push_step(
            &mut steps,
            write_text(row, 1, r.winners[i].as_str(), CellStyle::Body, "写入用户名失败"),
        );
        push_step(&mut steps, write_text(row, 2, rank_text(i), CellStyle::Body, "写入中奖等级失败"));
        proof {
            let t = winners.take(i + 1);
            assert(t.drop_last() =~= winners.take(i as int));
            assert(t.last() == r.winners@[i as int]@);
            assert(steps_model(steps@) =~= before + winner_row(i as nat, t.last()));
            assert(winner_rows(t) == winner_rows(winners.take(i as int)) + winner_row(
                i as nat,
                t.last(),
            ));
            assert(steps_model(steps@) =~= winners_head() + winner_rows(t));
        }
        i = i + 1;
    }
    proof {
        assert(winners.take(n as int) =~= winners);
    }
    let ghost body = steps_model(steps@);
    let row = (r.winner_count + 4) as u32;
    push_step(&mut steps, write_text(row, 0, "抽奖时间", CellStyle::Bold, "写入信息失败"));
    push_step(&mut steps, write_text(row, 1, drawn_at, CellStyle::Plain, "写入信息失败"));
    push_step(&mut steps, write_text(row + 1, 0, "参与人数", CellStyle::Bold, "写入信息失败"));
    push_step(
        &mut steps,
        write_number(row + 1, 1, r.total_participants, CellStyle::Plain, "写入信息失败"),
    );
    push_step(&mut steps, write_text(row + 2, 0, "去重人数", CellStyle::Bold, "写入信息失败"));
    push_step(
        &mut steps,
        write_number(row + 2, 1, r.unique_participants, CellStyle::Plain, "写入信息失败"),
    );
    push_step(&mut steps, write_text(row + 3, 0, "中奖人数", CellStyle::Bold, "写入信息失败"));
    push_step(
        &mut steps,
        write_number(row + 3, 1, r.winner_count, CellStyle::Plain, "写入信息失败"),
    );
    proof {
        assert(steps_model(steps@) =~= body + summary_rows(*r, drawn_at@));
    }
    SheetPlan {
        name: String::from_str("中奖名单"),
        failure: String::from_str("创建工作表失败"),
        steps,
    }
}

/// Lays out the sheet of everyone who took part.
pub fn participants_sheet_plan(participants: &Vec<String>) -> (sheet: SheetPlan)
    requires
        participants.len() <= u32::MAX,
    ensures
        sheet@ == participants_sheet(participants.deep_view()),
{
    let mut steps: Vec<SheetStep> = Vec::new();
    push_step(&mut steps, set_column(0, 0, 8));
    push_step(&mut steps, set_column(1, 1, 30));
    push_step(&mut steps, write_text(0, 0, "序号", CellStyle::Header, "写入表头失败"));
    push_step(&mut steps, write_text(0, 1, "用户名", CellStyle::Header, "写入表头失败"));
    proof {
        assert(steps_model(steps@) =~= participants_head());
    }
    let ghost names = participants.deep_view();
    let n = participants.len();
    let mut i: usize = 0;
    while i < n
        invariant
            n == participants.len(),
            n <= u32::MAX,
            names == participants.deep_view(),
            0 <= i <= n,
            steps_model(steps@) == participants_head() + participant_rows(names.take(i as int)),
        decreases n - i,
    {
        let row = (i + 1) as u32;
        let ghost before = steps_model(steps@);
        push_step(&mut steps, write_number(row, 0, i + 1, CellStyle::Body, "写入序号失败"));
        push_step(
            &mut steps,
            write_text(row, 1, participants[i].as_str(), CellStyle::Body, "写入用户名失败"),
        );
        proof {
            let t = names.take(i + 1);
            assert(t.drop_last() =~= names.take(i as int));
            assert(t.last() == participants@[i as int]@);
            assert(steps_model(steps@) =~= before + participant_row(i as nat, t.last()));
            assert(steps_model(steps@) =~= participants_head() + participant_rows(t));
        }
        i = i + 1;
    }
    proof {
        assert(names.take(n as int) =~= names);
    }
    SheetPlan {
        name: String::from_str("参与名单"),
        failure: String::from_str("创建工作表失败"),
        steps,
    }
}

/// Lays out the export of the draw `r` among `participants`, drawn at `drawn_at`.
pub fn workbook_layout(r: &DrawResponse, participants: &Vec<String>, drawn_at: &str) -> (plan:
    WorkbookPlan)
    requires
        r.winners.len() + 3 <= u32::MAX,
        r.winner_count + 7 <= u32::MAX,
        participants.len() <= u32::MAX,
    ensures
        plan@ == export_workbook(*r, participants.deep_view(), drawn_at@),
{
    let winners = winners_sheet_plan(r, drawn_at);
    let everyone = participants_sheet_plan(participants);
    let mut sheets: Vec<SheetPlan> = Vec::new();
    sheets.push(winners);
    sheets.push(everyone);
    let plan = WorkbookPlan {
        open_failure: String::from_str("创建 Excel 工作簿失败"),
        sheets,
        close_failure: String::from_str("保存 Excel 文件失败"),
    };
    proof {
        assert(plan@.sheets =~= seq![winners_sheet(*r, drawn_at@), participants_sheet(participants.deep_view())]);
    }
    plan
}

/// Lays out the export of the draw `r` among `participants`, stamped with the current local
/// time; fails when the clock cannot be read.
pub fn plan_export_workbook(r: &DrawResponse, participants: &Vec<String>) -> (res: Result<
    WorkbookPlan,
    AppError,
>)
    requires
        r.winners.len() + 3 <= u32::MAX,
        r.winner_count + 7 <= u32::MAX,
        participants.len() <= u32::MAX,
    ensures
        match res {
            Ok(plan) => exists|drawn_at: Seq<char>|
                is_readable_timestamp(drawn_at) && plan@ == #[trigger] export_workbook(
                    *r,
                    participants.deep_view(),
                    drawn_at,
                ),
            Err(e) => e.is_internal_with(clock_failure_message()),
        },
{
    let drawn_at = match local_now_formatted("%Y-%m-%d %H:%M:%S") {
        Some(t) => t,
        None => {
            return Err(AppError::InternalServerError(String::from_str("获取当前时间失败")));
        },
    };
    Ok(workbook_layout(r, participants, drawn_at.as_str()))
}

// ---------------------------------------------------------------------------
// Laws
// ---------------------------------------------------------------------------

/// The rows of the winners come three steps per winner, in the winners' order.
pub proof fn lemma_winner_rows_layout(winners: Seq<Seq<char>>)
    ensures
        winner_rows(winners).len() == 3 * winners.len(),
        forall|k: int|
            0 <= k < winners.len() ==> #[trigger] winner_rows(winners).subrange(3 * k, 3 * k + 3)
                == winner_row(k as nat, winners[k]),
    decreases winners.len(),
{
    if winners.len() > 0 {
        let init = winners.drop_last();
        lemma_winner_rows_layout(init);
        let last = winner_row((winners.len() - 1) as nat, winners.last());
        let all = winner_rows(winners);
        assert(all == winner_rows(init) + last);
        assert forall|k: int| 0 <= k < winners.len() implies #[trigger] all.subrange(
            3 * k,
            3 * k + 3,
        ) == winner_row(k as nat, winners[k]) by {
            if k < init.len() {
                assert(all.subrange(3 * k, 3 * k + 3) =~= winner_rows(init).subrange(
                    3 * k,
                    3 * k + 3,
                ));
                assert(init[k] == winners[k]);
            } else {
                assert(all.subrange(3 * k, 3 * k + 3) =~= last);
            }
        }
    }
}

/// The rows of the participants come two steps per name, in the order given.
pub proof fn lemma_participant_rows_layout(names: Seq<Seq<char>>)
    ensures
        participant_rows(names).len() == 2 * names.len(),
        forall|k: int|
            0 <= k < names.len() ==> #[trigger] participant_rows(names).subrange(2 * k, 2 * k + 2)
                == participant_row(k as nat, names[k]),
    decreases names.len(),
{
    if names.len() > 0 {
        let init = names.drop_last();
        lemma_participant_rows_layout(init);
        let last = participant_row((names.len() - 1) as nat, names.last());
        let all = participant_rows(names);
        assert(all == participant_rows(init) + last);
        assert forall|k: int| 0 <= k < names.len() implies #[trigger] all.subrange(
            2 * k,
            2 * k + 2,
        ) == participant_row(k as nat, names[k]) by {
            if k < init.len() {
                assert(all.subrange(2 * k, 2 * k + 2) =~= participant_rows(init).subrange(
                    2 * k,
                    2 * k + 2,
                ));
                assert(init[k] == names[k]);
            } else {
                assert(all.subrange(2 * k, 2 * k + 2) =~= last);
            }
        }
    }
}

/// The winners' sheet has seven steps of head, three per winner and eight of summary; the
/// winner in place `k` is written on row `k + 3` with its number `k + 1`, its name and its
/// prize.
pub proof fn lemma_winners_sheet_lists_every_winner(r: DrawResponse, drawn_at: Seq<char>, k: int)
    requires
        0 <= k < r.winners.len(),
    ensures
        winners_sheet(r, drawn_at).steps.len() == 7 + 3 * r.winners.len() + 8,
        winners_sheet(r, drawn_at).steps[7 + 3 * k] == number_step(
            (k + 3) as nat,
            0,
            (k + 1) as nat,
            CellStyle::Body,
            "写入序号失败"@,
        ),
        winners_sheet(r, drawn_at).steps[7 + 3 * k + 1] == text_step(
            (k + 3) as nat,
            1,
            r.winners@[k]@,
            CellStyle::Body,
            "写入用户名失败"@,
        ),
        winners_sheet(r, drawn_at).steps[7 + 3 * k + 2] == text_step(
            (k + 3) as nat,
            2,
            rank_label(k as nat),
            CellStyle::Body,
            "写入中奖等级失败"@,
        ),
{
    let w = r.winners.deep_view();
    lemma_winner_rows_layout(w);
    let rows = winner_rows(w);
    let steps = winners_sheet(r, drawn_at).steps;
    assert(rows.subrange(3 * k, 3 * k + 3) == winner_row(k as nat, w[k]));
    assert(steps[7 + 3 * k] == rows[3 * k]);
    assert(steps[7 + 3 * k + 1] == rows[3 * k + 1]);
    assert(steps[7 + 3 * k + 2] == rows[3 * k + 2]);
    assert(rows[3 * k] == rows.subrange(3 * k, 3 * k + 3)[0]);
    assert(rows[3 * k + 1] == rows.subrange(3 * k, 3 * k + 3)[1]);
    assert(rows[3 * k + 2] == rows.subrange(3 * k, 3 * k + 3)[2]);
}

/// The participants' sheet has four steps of head and two per name; the name in place `k` is
/// written on row `k + 1` with its number `k + 1`.
pub proof fn lemma_participants_sheet_lists_everyone(names: Seq<Seq<char>>, k: int)
    requires
        0 <= k < names.len(),
    ensures
        participants_sheet(names).steps.len() == 4 + 2 * names.len(),
        participants_sheet(names).steps[4 + 2 * k] == number_step(
            (k + 1) as nat,
            0,
            (k + 1) as nat,
            CellStyle::Body,
            "写入序号失败"@,
        ),
        participants_sheet(names).steps[4 + 2 * k + 1] == text_step(
            (k + 1) as nat,
            1,
            names[k],
            CellStyle::Body,
            "写入用户名失败"@,
        ),
{
    lemma_participant_rows_layout(names);
    let rows = participant_rows(names);
    let steps = participants_sheet(names).steps;
    assert(rows.subrange(2 * k, 2 * k + 2) == participant_row(k as nat, names[k]));
    assert(steps[4 + 2 * k] == rows[2 * k]);
    assert(steps[4 + 2 * k + 1] == rows[2 * k + 1]);
    assert(rows[2 * k] == rows.subrange(2 * k, 2 * k + 2)[0]);
    assert(rows[2 * k + 1] == rows.subrange(2 * k, 2 * k + 2)[1]);
}

/// Below the winners, the winners' sheet writes eight cells on rows `winner_count + 4` to
/// `winner_count + 7`: the draw time, then the number of names given, the number of distinct
/// names and the number of winners, each next to its label.
pub proof fn lemma_winners_sheet_summary(r: DrawResponse, drawn_at: Seq<char>)
    ensures
        ({
            let steps = winners_sheet(r, drawn_at).steps;
            let base = 7 + 3 * r.winners.len();
            let row = r.winner_count + 4;
            &&& steps.len() == base + 8
            &&& steps[base] == text_step(row as nat, 0, "抽奖时间"@, CellStyle::Bold, "写入信息失败"@)
            &&& steps[base + 1] == text_step(row as nat, 1, drawn_at, CellStyle::Plain, "写入信息失败"@)
            &&& steps[base + 2] == text_step((row + 1) as nat, 0, "参与人数"@, CellStyle::Bold, "写入信息失败"@)
            &&& steps[base + 3] == number_step(
                (row + 1) as nat,
                1,
                r.total_participants as nat,
                CellStyle::Plain,
                "写入信息失败"@,
            )
            &&& steps[base + 4] == text_step((row + 2) as nat, 0, "去重人数"@, CellStyle::Bold, "写入信息失败"@)
            &&& steps[base + 5] == number_step(
                (row + 2) as nat,
                1,
                r.unique_participants as nat,
                CellStyle::Plain,
                "写入信息失败"@,
            )
            &&& steps[base + 6] == text_step((row + 3) as nat, 0, "中奖人数"@, CellStyle::Bold, "写入信息失败"@)
            &&& steps[base + 7] == number_step(
                (row + 3) as nat,
                1,
                r.winner_count as nat,
                CellStyle::Plain,
                "写入信息失败"@,
            )
        }),
{
    lemma_winner_rows_layout(r.winners.deep_view());
}

} // verus!
