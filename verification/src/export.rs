use chrono::{DateTime, Local};
use rand::rngs::OsRng;
use rand::RngCore;
use uuid::Builder;
use vstd::prelude::*;
use vstd::string::*;

use crate::error::AppError;
use crate::lottery::{distinct_in_order, random_source_failure_message, draw, draw_result, lemma_distinct_in_order, draw_outcome, draw_rejection, DrawRequest, DrawResponse};
use crate::workbook::{
    export_workbook, lemma_participants_sheet_lists_everyone, lemma_winners_sheet_lists_every_winner,
    lemma_winners_sheet_summary, number_step, participants_sheet, plan_export_workbook, text_step,
    winners_sheet, CellStyle, WorkbookPlan,
};
use crate::text::{
    digits_value, lemma_decimal_reads_back,
    chars_of, contains_char, contains_double_dot, decimal, decimal_string, ends_with, ends_with_chars,
    has_char, has_double_dot, is_lower_hex_digit,
};

verus! {

/// What the service answers after a draw has been written to a workbook.
#[derive(Debug)]
pub struct ExportResponse {
    pub filename: String,
    pub download_url: String,
    pub full_url: String,
    pub draw_result: DrawResponse,
}

/// The file name asked for in a download.
#[derive(Debug)]
pub struct DownloadPath {
    pub filename: String,
}

/// A draw ready to be written out: the answer to send and the workbook to write first.
#[derive(Debug)]
pub struct PreparedExport {
    pub response: ExportResponse,
    pub workbook: WorkbookPlan,
}

/// The headers of a workbook download.
#[derive(Debug)]
pub struct DownloadHeaders {
    pub content_type: String,
    pub content_disposition: String,
    pub content_length: String,
}

// ---------------------------------------------------------------------------
// The model
// ---------------------------------------------------------------------------

/// The name of an exported workbook made at `timestamp` with the random hex string `id`.
pub open spec fn export_filename(timestamp: Seq<char>, id: Seq<char>) -> Seq<char> {
    "lottery_"@ + timestamp + "_"@ + id.take(6) + ".xlsx"@
}

/// `id` is what `Uuid::simple` prints: 32 lowercase hexadecimal digits.
pub open spec fn is_simple_uuid(id: Seq<char>) -> bool {
    id.len() == 32 && forall|i: int| 0 <= i < id.len() ==> is_lower_hex_digit(#[trigger] id[i])
}

/// The strftime patterns that the service formats the current time with.
pub open spec fn is_time_pattern(pattern: Seq<char>) -> bool {
    pattern == "%Y%m%d_%H%M%S"@ || pattern == "%Y-%m-%d %H:%M:%S"@
}

pub open spec fn is_digit(c: char) -> bool {
    '0' <= c && c <= '9'
}

/// What `%Y` prints for a year from 0 on: four digits, zero-padded, or past 9999 a `+`
/// and the digits.
pub open spec fn is_year_text(y: Seq<char>) -> bool {
    ||| y.len() == 4 && forall|i: int| 0 <= i < 4 ==> is_digit(#[trigger] y[i])
    ||| y.len() >= 6 && y[0] == '+' && forall|i: int| 1 <= i < y.len() ==> is_digit(#[trigger] y[i])
}

/// What `%Y%m%d_%H%M%S` prints: the year, two digits each for month and day, `_`, and two
/// digits each for hour, minute and second.
pub open spec fn is_compact_timestamp(t: Seq<char>) -> bool {
    &&& t.len() >= 15
    &&& is_year_text(t.take(t.len() - 11))
    &&& forall|i: int|
        t.len() - 11 <= i < t.len() ==> if i == t.len() - 7 {
            #[trigger] t[i] == '_'
        } else {
            is_digit(t[i])
        }
}

/// What `%Y-%m-%d %H:%M:%S` prints: the year, `-`, month, `-`, day, ` `, hour, `:`, minute,
/// `:`, second, each field after the year two digits.
pub open spec fn is_readable_timestamp(t: Seq<char>) -> bool {
    &&& t.len() >= 19
    &&& is_year_text(t.take(t.len() - 15))
    &&& forall|i: int|
        t.len() - 15 <= i < t.len() ==> {
            let k = i - (t.len() - 15);
            if k == 0 || k == 3 {
                #[trigger] t[i] == '-'
            } else if k == 6 {
                t[i] == ' '
            } else if k == 9 || k == 12 {
                t[i] == ':'
            } else {
                is_digit(t[i])
            }
        }
}

/// Every character of a compact timestamp is a digit, `_` or `+`.
pub proof fn lemma_compact_timestamp_chars(t: Seq<char>)
    requires
        is_compact_timestamp(t),
    ensures
        forall|i: int| 0 <= i < t.len() ==> is_digit(#[trigger] t[i]) || t[i] == '_' || t[i] == '+',
{
    let y = t.take(t.len() - 11);
    assert forall|i: int| 0 <= i < t.len() implies is_digit(#[trigger] t[i]) || t[i] == '_' || t[i]
        == '+' by {
        if i < t.len() - 11 {
            assert(t[i] == y[i]);
        }
    }
}

/// The shape of the current time printed with `pattern`.
pub open spec fn has_clock_shape(pattern: Seq<char>, text: Seq<char>) -> bool {
    &&& pattern == "%Y%m%d_%H%M%S"@ ==> is_compact_timestamp(text)
    &&& pattern == "%Y-%m-%d %H:%M:%S"@ ==> is_readable_timestamp(text)
}

pub open spec fn clock_failure_message() -> Seq<char> {
    "获取当前时间失败"@
}

pub open spec fn random_id_failure_message() -> Seq<char> {
    "生成随机标识失败"@
}

pub open spec fn download_path(filename: Seq<char>) -> Seq<char> {
    "/api/download/"@ + filename
}

pub open spec fn public_url(path: Seq<char>) -> Seq<char> {
    "http://localhost:3000"@ + path
}

pub open spec fn illegal_filename_message() -> Seq<char> {
    "非法的文件名"@
}

pub open spec fn not_xlsx_message() -> Seq<char> {
    "仅支持下载 xlsx 文件"@
}

pub open spec fn missing_file_message() -> Seq<char> {
    "文件不存在"@
}

pub open spec fn xlsx_content_type() -> Seq<char> {
    "application/vnd.openxmlformats-officedocument.spreadsheetml.sheet"@
}

/// A name that could leave the export directory.
pub open spec fn is_unsafe_filename(name: Seq<char>) -> bool {
    has_double_dot(name) || has_char(name, '/') || has_char(name, '\\')
}

/// Why a download of `name` is refused before the file is looked for, if it is.
pub open spec fn filename_rejection(name: Seq<char>) -> Option<Seq<char>> {
    if is_unsafe_filename(name) {
        Some(illegal_filename_message())
    } else if !ends_with(name, ".xlsx"@) {
        Some(not_xlsx_message())
    } else {
        None
    }
}

pub open spec fn content_disposition(filename: Seq<char>) -> Seq<char> {
    "attachment; filename=\""@ + filename + "\""@
}

/// What a download of `filename` answers, given the length of the file when it exists.
pub open spec fn download_result(
    filename: Seq<char>,
    file_len: Option<usize>,
    res: Result<DownloadHeaders, AppError>,
) -> bool {
    match filename_rejection(filename) {
        Some(msg) => res matches Err(e) && e.is_bad_request_with(msg),
        None => match file_len {
            None => res matches Err(e) && e.is_bad_request_with(missing_file_message()),
            Some(n) => res matches Ok(h) && h.content_type@ == xlsx_content_type()
                && h.content_disposition@ == content_disposition(filename) && h.content_length@
                == decimal(n as nat),
        },
    }
}

// ---------------------------------------------------------------------------
// Calls into chrono and uuid
// ---------------------------------------------------------------------------

/// Reads the clock with `std::time::SystemTime::now` and `duration_since(UNIX_EPOCH)`, makes a
/// `chrono::DateTime<Utc>` with `DateTime::from_timestamp`, moves it to the local time zone
/// with `with_timezone(&Local)`, and prints it with `format(pattern)` and `to_string`.
/// `None` when the clock reads before 1970 or past chrono's range. The text depends on the
/// clock and the time zone; what is stated is the shape that chrono documents for each
/// specifier of the admitted patterns (`%Y` zero-padded to four digits, signed past 9999;
/// `%m %d %H %M %S` two digits). chrono's local-offset lookup ends in an `expect` that fails
/// only for times outside its range, and falls back to UTC when no zone data can be read;
/// that is not ruled out here.
#[verifier::external_body]
pub(crate) fn local_now_formatted(pattern: &str) -> (text: Option<String>)
    requires
        is_time_pattern(pattern@),
    ensures
        text matches Some(t) ==> has_clock_shape(pattern@, t@),
{
    let since = std::time::SystemTime::now().duration_since(std::time::UNIX_EPOCH).ok()?;
    let secs = i64::try_from(since.as_secs()).ok()?;
    let utc = DateTime::from_timestamp(secs, since.subsec_nanos())?;
    Some(utc.with_timezone(&Local).format(pattern).to_string())
}

/// Fills sixteen bytes from the operating system with `rand::rngs::OsRng::try_fill_bytes`,
/// makes a version-4 UUID of them with `uuid::Builder::from_random_bytes`, and prints it with
/// `Uuid::simple` and `to_string`. `None` when the operating system gives no random bytes.
/// The value is random; the simple format is always 32 lowercase hexadecimal digits.
#[verifier::external_body]
fn new_uuid_simple() -> (id: Option<String>)
    ensures
        id matches Some(s) ==> is_simple_uuid(s@),
{
    let mut bytes = [0u8; 16];
    OsRng.try_fill_bytes(&mut bytes).ok()?;
    Some(Builder::from_random_bytes(bytes).into_uuid().simple().to_string())
}

// ---------------------------------------------------------------------------
// File names and URLs
// ---------------------------------------------------------------------------

/// The name of a workbook exported at `timestamp`, marked with the first six characters of `id`.
pub fn build_export_filename(timestamp: &str, id: &str) -> (name: String)
    requires
        id@.len() >= 6,
        is_ascii(id),
    ensures
        name@ == export_filename(timestamp@, id@),
{
    let mut name = String::from_str("lottery_");
    name.append(timestamp);
    name.append("_");
    name.append(id.substring_ascii(0, 6));
    name.append(".xlsx");
    proof {
        assert(id@.subrange(0, 6) =~= id@.take(6));
    }
    name
}

/// A fresh name for an exported workbook: the current local time and six random hex digits.
/// Fails when the clock or the random source fails.
pub fn generate_filename() -> (res: Result<String, AppError>)
    ensures
        match res {
            Ok(name) => {
                &&& exists|timestamp: Seq<char>, id: Seq<char>|
                    is_simple_uuid(id) && is_compact_timestamp(timestamp) && name@
                        == #[trigger] export_filename(timestamp, id)
                &&& name@.len() >= 35
                &&& filename_rejection(name@) is None
            },
            Err(e) => e.is_internal_with(clock_failure_message()) || e.is_internal_with(
                random_id_failure_message(),
            ),
        },
{
    let timestamp = match local_now_formatted("%Y%m%d_%H%M%S") {
        Some(t) => t,
        None => {
            return Err(AppError::InternalServerError(String::from_str("获取当前时间失败")));
        },
    };
    let id = match new_uuid_simple() {
        Some(id) => id,
        None => {
            return Err(AppError::InternalServerError(String::from_str("生成随机标识失败")));
        },
    };
    proof {
        assert forall|i: int| 0 <= i < id@.len() implies '\0' <= #[trigger] id@[i] <= '\u{7f}' by {
            assert(is_lower_hex_digit(id@[i]));
        }
        lemma_export_filename_shape(timestamp@, id@);
        lemma_export_filename_is_downloadable(timestamp@, id@);
    }
    Ok(build_export_filename(timestamp.as_str(), id.as_str()))
}

/// The path under which an exported workbook is downloaded.
pub fn download_url(filename: &str) -> (url: String)
    ensures
        url@ == download_path(filename@),
{
    let mut url = String::from_str("/api/download/");
    url.append(filename);
    url
}

/// The full address of a download path on the local server.
pub fn full_url(path: &str) -> (url: String)
    ensures
        url@ == public_url(path@),
{
    let mut url = String::from_str("http://localhost:3000");
    url.append(path);
    url
}

// ---------------------------------------------------------------------------
// Draw and export
// ---------------------------------------------------------------------------

/// What a successful export of a draw for `req` holds.
pub open spec fn export_outcome(req: DrawRequest, p: PreparedExport) -> bool {
    let resp = p.response;
    &&& draw_outcome(req, resp.draw_result)
    &&& exists|timestamp: Seq<char>, id: Seq<char>|
        is_simple_uuid(id) && is_compact_timestamp(timestamp) && resp.filename@
            == #[trigger] export_filename(timestamp, id)
    &&& filename_rejection(resp.filename@) is None
    &&& resp.download_url@ == download_path(resp.filename@)
    &&& resp.full_url@ == public_url(resp.download_url@)
    &&& exists|drawn_at: Seq<char>|
        is_readable_timestamp(drawn_at) && p.workbook@ == #[trigger] export_workbook(
            resp.draw_result,
            req.participants.deep_view(),
            drawn_at,
        )
}

/// The server errors of an export: the clock cannot be read, the random id cannot be made,
/// or, for a draw without a seed, the random source fails with some cause.
pub open spec fn export_failure(req: DrawRequest, e: AppError) -> bool {
    ||| e.is_internal_with(clock_failure_message())
    ||| e.is_internal_with(random_id_failure_message())
    ||| req.seed is None && exists|cause: Seq<char>|
        e.is_internal_with(random_source_failure_message() + ": "@ + cause)
}

/// What `draw_and_export` answers for `req`: the rejection of the draw when there is one,
/// else a successful export, or a server error when the clock or the random source fails.
pub open spec fn export_result(req: DrawRequest, res: Result<PreparedExport, AppError>) -> bool {
    match draw_rejection(req.participants.deep_view(), req.count) {
        Some(msg) => res matches Err(e) && e.is_bad_request_with(msg),
        None => match res {
            Ok(p) => export_outcome(req, p),
            Err(e) => export_failure(req, e),
        },
    }
}

/// Draws, names the workbook and lays it out: the rejection of the draw when there is one,
/// else the answer together with the workbook to write under its file name.
pub fn draw_and_export(req: DrawRequest) -> (res: Result<PreparedExport, AppError>)
    requires
        req.participants.len() + 7 <= u32::MAX,
    ensures
        export_result(req, res),
{
    let participants = req.participants.clone();
    proof {
        assert(participants.deep_view() =~= req.participants.deep_view());
    }
    let ghost request = req;
    let draw_result = match draw(req) {
        Ok(r) => r,
        Err(e) => {
            return Err(e);
        },
    };
    proof {
        lemma_distinct_in_order(participants.deep_view());
        assert(draw_outcome(request, draw_result));
        assert(draw_result.winners.deep_view().len() == draw_result.winners.len());
    }
    let filename = generate_filename()?;
    let workbook = plan_export_workbook(&draw_result, &participants)?;
    let download_url = download_url(filename.as_str());
    let full_url = full_url(download_url.as_str());
    let response = ExportResponse { filename, download_url, full_url, draw_result };
    Ok(PreparedExport { response, workbook })
}

// ---------------------------------------------------------------------------
// Downloads
// ---------------------------------------------------------------------------

/// Refuses a name that could leave the export directory or that is not an `.xlsx` file.
pub fn validate_download_filename(filename: &str) -> (res: Result<(), AppError>)
    ensures
        match filename_rejection(filename@) {
            Some(msg) => res matches Err(e) && e.is_bad_request_with(msg),
            None => res is Ok,
        },
{
    let chars = chars_of(filename);
    if contains_double_dot(&chars) || contains_char(&chars, '/') || contains_char(&chars, '\\') {
        return Err(AppError::bad_request("非法的文件名"));
    }
    let ext = chars_of(".xlsx");
    if !ends_with_chars(&chars, &ext) {
        return Err(AppError::bad_request("仅支持下载 xlsx 文件"));
    }
    Ok(())
}

/// Answers a download of `filename`: `file_len` is the length of the file's content when
/// the file exists in the export directory, and `None` when it does not.
pub fn download_file(filename: &str, file_len: Option<usize>) -> (res: Result<
    DownloadHeaders,
    AppError,
>)
    ensures
        download_result(filename@, file_len, res),
{
    validate_download_filename(filename)?;
    let len = match file_len {
        None => {
            return Err(AppError::bad_request("文件不存在"));
        },
        Some(n) => n,
    };
    let content_type = String::from_str(
        "application/vnd.openxmlformats-officedocument.spreadsheetml.sheet",
    );
    let mut content_disposition = String::from_str("attachment; filename=\"");
    content_disposition.append(filename);
    content_disposition.append("\"");
    let content_length = decimal_string(len);
    Ok(DownloadHeaders { content_type, content_disposition, content_length })
}

// ---------------------------------------------------------------------------
// Laws
// ---------------------------------------------------------------------------

/// The name of an exported workbook starts with `lottery_`, ends with `.xlsx`, and is
/// twenty characters longer than its timestamp.
pub proof fn lemma_export_filename_shape(timestamp: Seq<char>, id: Seq<char>)
    requires
        id.len() >= 6,
    ensures
        export_filename(timestamp, id).len() == timestamp.len() + 20,
        export_filename(timestamp, id).take(8) == "lottery_"@,
        ends_with(export_filename(timestamp, id), ".xlsx"@),
{
    reveal_strlit("lottery_");
    reveal_strlit("_");
    reveal_strlit(".xlsx");
    let name = export_filename(timestamp, id);
    assert(name.take(8) =~= "lottery_"@);
    assert(name.subrange(name.len() - 5, name.len() as int) =~= ".xlsx"@);
}

/// A workbook name made from a compact timestamp and a UUID is one that a download accepts:
/// the name the service hands out can be fetched back.
pub proof fn lemma_export_filename_is_downloadable(timestamp: Seq<char>, id: Seq<char>)
    requires
        is_simple_uuid(id),
        is_compact_timestamp(timestamp),
    ensures
        filename_rejection(export_filename(timestamp, id)) is None,
{
    reveal_strlit("lottery_");
    reveal_strlit("_");
    reveal_strlit(".xlsx");
    lemma_export_filename_shape(timestamp, id);
    lemma_compact_timestamp_chars(timestamp);
    let name = export_filename(timestamp, id);
    let t = timestamp.len();
    // name = "lottery_" (0..8) + timestamp (8..8+t) + "_" (8+t) + id (9+t..15+t) + ".xlsx"
    assert forall|i: int| 0 <= i < name.len() implies name[i] != '/' && name[i] != '\\' by {
        if 8 <= i < 8 + t {
            assert(name[i] == timestamp[i - 8]);
        } else if 9 + t <= i < 15 + t {
            assert(name[i] == id[i - 9 - t]);
            assert(is_lower_hex_digit(id[i - 9 - t]));
        }
    }
    assert forall|i: int| 0 <= i && i + 1 < name.len() && #[trigger] name[i] == '.' implies name[i + 1] != '.' by {
        if 8 <= i < 8 + t {
            assert(name[i] == timestamp[i - 8]);
        } else if 9 + t <= i < 15 + t {
            assert(name[i] == id[i - 9 - t]);
            assert(is_lower_hex_digit(id[i - 9 - t]));
        }
    }
}

/// An export draws as a plain draw does: for the same request both are refused with the same
/// message or neither is; when both succeed they report the same counts, and with a seed they
/// pick the same winners.
pub proof fn lemma_export_draws_as_draw(
    req: DrawRequest,
    rd: Result<DrawResponse, AppError>,
    re: Result<PreparedExport, AppError>,
)
    requires
        draw_result(req, rd),
        export_result(req, re),
    ensures
        (rd matches Err(x) && x is BadRequest) <==> (re matches Err(y) && y is BadRequest),
        rd matches Err(x) ==> (x is BadRequest ==> (re matches Err(y) && exists|m: Seq<char>|
            x.is_bad_request_with(m) && y.is_bad_request_with(m))),
        rd matches Ok(d) ==> (re matches Ok(p) ==> d.total_participants
            == p.response.draw_result.total_participants && d.unique_participants
            == p.response.draw_result.unique_participants && d.winner_count
            == p.response.draw_result.winner_count),
        req.seed is Some ==> (rd matches Ok(d) ==> (re matches Ok(p) ==> d.winners.deep_view()
            == p.response.draw_result.winners.deep_view())),
{
}

/// A download of an existing workbook reports its length as decimal text that reads back as
/// the length.
pub proof fn lemma_download_length_reads_back(
    filename: Seq<char>,
    file_len: usize,
    res: Result<DownloadHeaders, AppError>,
)
    requires
        download_result(filename, Some(file_len), res),
        filename_rejection(filename) is None,
    ensures
        res is Ok,
        res matches Ok(h) ==> digits_value(h.content_length@) == file_len as int,
        res matches Ok(h) ==> forall|i: int|
            0 <= i < h.content_length@.len() ==> '0' <= #[trigger] h.content_length@[i]
                && h.content_length@[i] <= '9',
{
    lemma_decimal_reads_back(file_len as nat);
}

/// The workbook of a successful export reports the draw: on the winners' sheet, the winner
/// in place `k` on row `k + 3`, and below the winners the number of names given, the number
/// of distinct names and the number of winners asked for; on the participants' sheet, every
/// name given, in order, on row `k + 1`.
pub proof fn lemma_export_workbook_reports_the_draw(req: DrawRequest, p: PreparedExport, k: int)
    requires
        export_outcome(req, p),
        0 <= k < req.count,
    ensures
        p.workbook@.sheets.len() == 2,
        p.workbook@.sheets[0].steps[7 + 3 * k + 1] == text_step(
            (k + 3) as nat,
            1,
            p.response.draw_result.winners.deep_view()[k],
            CellStyle::Body,
            "写入用户名失败"@,
        ),
        p.workbook@.sheets[0].steps[7 + 3 * req.count + 3] == number_step(
            (req.count + 5) as nat,
            1,
            req.participants.len() as nat,
            CellStyle::Plain,
            "写入信息失败"@,
        ),
        p.workbook@.sheets[0].steps[7 + 3 * req.count + 5] == number_step(
            (req.count + 6) as nat,
            1,
            distinct_in_order(req.participants.deep_view()).len(),
            CellStyle::Plain,
            "写入信息失败"@,
        ),
        p.workbook@.sheets[0].steps[7 + 3 * req.count + 7] == number_step(
            (req.count + 7) as nat,
            1,
            req.count as nat,
            CellStyle::Plain,
            "写入信息失败"@,
        ),
        k < req.participants.len() ==> p.workbook@.sheets[1].steps[4 + 2 * k + 1] == text_step(
            (k + 1) as nat,
            1,
            req.participants.deep_view()[k],
            CellStyle::Body,
            "写入用户名失败"@,
        ),
{
    let r = p.response.draw_result;
    let names = req.participants.deep_view();
    let at = choose|drawn_at: Seq<char>|
        is_readable_timestamp(drawn_at) && p.workbook@ == #[trigger] export_workbook(
            r,
            names,
            drawn_at,
        );
    assert(p.workbook@.sheets[0] == winners_sheet(r, at));
    assert(p.workbook@.sheets[1] == participants_sheet(names));
    lemma_winners_sheet_lists_every_winner(r, at, k);
    lemma_winners_sheet_summary(r, at);
    lemma_distinct_in_order(names);
    if k < req.participants.len() {
        lemma_participants_sheet_lists_everyone(names, k);
    }
}

} // verus!
