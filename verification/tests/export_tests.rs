use lottery_api::error::AppError;
use lottery_api::export::{
    build_export_filename, download_file, download_url, draw_and_export, full_url, generate_filename,
    validate_download_filename,
};
use lottery_api::lottery::{DrawRequest, DrawResponse};
use lottery_api::workbook::{plan_export_workbook, workbook_layout, CellStyle, CellValue, SheetOp};

fn message(err: &AppError) -> &str {
    match err {
        AppError::BadRequest(m) => m,
        AppError::InternalServerError(m) => m,
    }
}

#[test]
fn test_generate_filename_format() {
    let filename = generate_filename().unwrap();
    assert!(filename.starts_with("lottery_"));
    assert!(filename.ends_with(".xlsx"));
    assert!(filename.len() > 20);
}

#[test]
fn test_create_excel_success() {
    let draw_resp = DrawResponse {
        winners: vec!["user1".into(), "user2".into(), "user3".into()],
        total_participants: 10,
        unique_participants: 8,
        winner_count: 3,
    };

    let participants = vec![
        "user1".into(),
        "user2".into(),
        "user3".into(),
        "user4".into(),
        "user5".into(),
    ];

    let plan = plan_export_workbook(&draw_resp, &participants).unwrap();
    assert_eq!(plan.sheets.len(), 2);
    assert_eq!(plan.sheets[0].name, "中奖名单");
    assert_eq!(plan.sheets[1].name, "参与名单");
    // head, three rows of three cells, summary
    assert_eq!(plan.sheets[0].steps.len(), 7 + 9 + 8);
    // head, five rows of two cells
    assert_eq!(plan.sheets[1].steps.len(), 4 + 10);
}

#[test]
fn test_draw_and_export_success() {
    let req = DrawRequest {
        participants: vec![
            "alice".into(),
            "bob".into(),
            "charlie".into(),
            "david".into(),
        ],
        count: 2,
        seed: Some(42),
    };

    let result = draw_and_export(req);
    assert!(result.is_ok(), "抽奖导出失败: {:?}", result.err());

    let resp = result.unwrap().response;
    assert!(resp.filename.ends_with(".xlsx"));
    assert!(resp.download_url.starts_with("/api/download/"));
    assert!(resp.full_url.contains("localhost"));
    assert_eq!(resp.draw_result.winner_count, 2);
    assert_eq!(resp.draw_result.total_participants, 4);
}

#[test]
fn test_download_file_invalid_filename() {
    let result = download_file("../secret.txt", None);
    assert!(result.is_err());

    let result = download_file("file.exe", None);
    assert!(result.is_err());
}

#[test]
fn test_download_file_not_found() {
    let result = download_file("nonexistent.xlsx", None);
    assert!(result.is_err());
}

// ---------------------------------------------------------------------------
// Further cases
// ---------------------------------------------------------------------------

#[test]
fn export_filename_is_built_from_its_parts() {
    let name = build_export_filename("20240101_120000", "a1b2c3d4e5f60718293a4b5c6d7e8f90");
    assert_eq!(name, "lottery_20240101_120000_a1b2c3.xlsx");
}

#[test]
fn generated_filename_has_a_hex_mark_and_can_be_downloaded() {
    let name = generate_filename().unwrap();
    let stem = &name[..name.len() - ".xlsx".len()];
    let mark = &stem[stem.len() - 6..];
    assert!(mark.chars().all(|c| c.is_ascii_hexdigit() && !c.is_ascii_uppercase()));
    assert_eq!(&stem[stem.len() - 7..stem.len() - 6], "_");
    assert!(validate_download_filename(&name).is_ok());
    assert_ne!(generate_filename().unwrap(), generate_filename().unwrap());
}

#[test]
fn urls_of_an_export() {
    let path = download_url("lottery_20240101_120000_a1b2c3.xlsx");
    assert_eq!(path, "/api/download/lottery_20240101_120000_a1b2c3.xlsx");
    assert_eq!(
        full_url(&path),
        "http://localhost:3000/api/download/lottery_20240101_120000_a1b2c3.xlsx"
    );
}

#[test]
fn download_rejections_and_their_messages() {
    for bad in ["../secret.xlsx", "a/b.xlsx", "a\\b.xlsx", "x..y.xlsx", ".."] {
        let err = validate_download_filename(bad).unwrap_err();
        assert_eq!(message(&err), "非法的文件名");
    }
    for bad in ["file.exe", "report.xls", "xlsx", "", "a.xlsx.txt"] {
        let err = validate_download_filename(bad).unwrap_err();
        assert_eq!(message(&err), "仅支持下载 xlsx 文件");
    }
    assert!(validate_download_filename(".xlsx").is_ok());
    assert!(validate_download_filename("a.b.xlsx").is_ok());
    let err = download_file("nonexistent.xlsx", None).unwrap_err();
    assert_eq!(message(&err), "文件不存在");
    assert_eq!(err.status_code(), 400);
}

#[test]
fn download_headers_of_an_existing_file() {
    let h = download_file("lottery_x.xlsx", Some(12345)).unwrap();
    assert_eq!(
        h.content_type,
        "application/vnd.openxmlformats-officedocument.spreadsheetml.sheet"
    );
    assert_eq!(h.content_disposition, "attachment; filename=\"lottery_x.xlsx\"");
    assert_eq!(h.content_length, "12345");
    assert_eq!(download_file("b.xlsx", Some(0)).unwrap().content_length, "0");
}

#[test]
fn internal_errors_join_step_and_cause() {
    let e = AppError::internal("读取文件失败", "no such file");
    assert_eq!(message(&e), "读取文件失败: no such file");
    assert_eq!(e.status_code(), 500);
}

#[test]
fn export_of_a_refused_draw_is_refused() {
    let req = DrawRequest { participants: vec!["a".into()], count: 2, seed: None };
    let err = draw_and_export(req).unwrap_err();
    assert_eq!(message(&err), "中奖数量 (2) 不能大于去重后参与者数量 (1)");
}

#[test]
fn winners_sheet_layout() {
    let r = DrawResponse {
        winners: vec!["ann".into(), "bo".into(), "cy".into(), "di".into()],
        total_participants: 9,
        unique_participants: 6,
        winner_count: 4,
    };
    let plan = workbook_layout(&r, &vec!["ann".into(), "bo".into()], "2024-01-01 12:00:00");
    let steps = &plan.sheets[0].steps;
    assert_eq!(steps.len(), 7 + 12 + 8);
    match &steps[0].op {
        SheetOp::SetColumn { first_col, last_col, width } => {
            assert_eq!((*first_col, *last_col, *width), (0, 0, 8))
        }
        other => panic!("unexpected {:?}", other),
    }
    match &steps[3].op {
        SheetOp::MergeRange { first_row, last_col, text, style, .. } => {
            assert_eq!((*first_row, *last_col), (0, 2));
            assert_eq!(text, "🎉 抽奖活动中奖名单");
            assert_eq!(*style, CellStyle::Title);
        }
        other => panic!("unexpected {:?}", other),
    }
    let ranks: Vec<String> = (0..4)
        .map(|k| match &steps[7 + 3 * k + 2].op {
            SheetOp::WriteCell { value: CellValue::Text(t), row, col, .. } => {
                assert_eq!((*row as usize, *col), (k + 3, 2));
                t.clone()
            }
            other => panic!("unexpected {:?}", other),
        })
        .collect();
    assert_eq!(ranks, vec!["一等奖", "二等奖", "三等奖", "幸运奖"]);
    match &steps[7 + 3].op {
        SheetOp::WriteCell { value: CellValue::Number(n), row, .. } => assert_eq!((*n, *row), (2, 4)),
        other => panic!("unexpected {:?}", other),
    }
    assert_eq!(steps[7 + 3].failure, "写入序号失败");
    // the summary starts at row winner_count + 4
    match &steps[7 + 12 + 1].op {
        SheetOp::WriteCell { value: CellValue::Text(t), row, col, style } => {
            assert_eq!(t, "2024-01-01 12:00:00");
            assert_eq!((*row, *col, *style), (8, 1, CellStyle::Plain));
        }
        other => panic!("unexpected {:?}", other),
    }
    match &steps[7 + 12 + 5].op {
        SheetOp::WriteCell { value: CellValue::Number(n), row, .. } => assert_eq!((*n, *row), (6, 10)),
        other => panic!("unexpected {:?}", other),
    }
    assert_eq!(plan.sheets[1].steps.len(), 4 + 4);
    assert_eq!(plan.open_failure, "创建 Excel 工作簿失败");
    assert_eq!(plan.close_failure, "保存 Excel 文件失败");
}

#[test]
fn generated_filename_has_a_compact_local_timestamp() {
    // lottery_YYYYMMDD_HHMMSS_xxxxxx.xlsx
    let name = generate_filename().unwrap();
    let chars: Vec<char> = name.chars().collect();
    assert_eq!(chars.len(), 35);
    let stamp: String = chars[8..23].iter().collect();
    for (i, c) in stamp.chars().enumerate() {
        if i == 8 {
            assert_eq!(c, '_');
        } else {
            assert!(c.is_ascii_digit(), "{}", stamp);
        }
    }
    assert!(stamp.starts_with("20"));
}

#[test]
fn exported_workbook_is_stamped_with_a_readable_time() {
    let r = DrawResponse {
        winners: vec!["a".into()],
        total_participants: 1,
        unique_participants: 1,
        winner_count: 1,
    };
    let plan = plan_export_workbook(&r, &vec!["a".into()]).unwrap();
    match &plan.sheets[0].steps[7 + 3 + 1].op {
        SheetOp::WriteCell { value: CellValue::Text(t), row, col, .. } => {
            assert_eq!((*row, *col), (5, 1));
            assert_eq!(t.len(), 19);
            let b = t.as_bytes();
            assert_eq!((b[4], b[7], b[10], b[13], b[16]), (b'-', b'-', b' ', b':', b':'));
        }
        other => panic!("unexpected {:?}", other),
    }
}
