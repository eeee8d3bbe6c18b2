use invoice_tool::commands::{
    check_mapping_import, check_mapping_text, mapping_rules, mapping_rules_from_text, MappingEntry,
};
use invoice_tool::config_store::{default_categories, default_mapping};
use invoice_tool::cover_generator::{cover_output_files, group_for_cover, ledger_output_file};
use invoice_tool::invoice_parser::ParsedInvoice;
use invoice_tool::pdf_merge::{self, plan_merge, set_pdftocairo_path};
use invoice_tool::py_merge::{self, merged_output_file};
use invoice_tool::search::{poppler_candidates, poppler_dev_candidates, script_candidates, SearchRoot};
use invoice_tool::slot::PathSlot;

fn invoice(owner: &str, buyer: &str, ok: bool) -> ParsedInvoice {
    ParsedInvoice {
        file: String::new(),
        file_name: String::new(),
        invoice_type: String::new(),
        issue_date: String::new(),
        invoice_no: String::new(),
        amount: String::new(),
        buyer: buyer.to_string(),
        project_name: String::new(),
        category: String::new(),
        owner: owner.to_string(),
        is_invoice_pdf: ok,
        error: None,
        debug_text: String::new(),
    }
}

#[test]
fn covers_group_by_owner_and_buyer_in_first_seen_order() {
    let invs = vec![
        invoice("张三", "甲公司", true),
        invoice("李四", "甲公司", true),
        invoice("张三", "乙公司", false),
        invoice("张三", "甲公司", true),
        invoice("张三", "乙公司", true),
    ];
    assert_eq!(group_for_cover(&invs), vec![vec![0, 3], vec![1], vec![4]]);
    assert!(group_for_cover(&vec![invoice("a", "b", false)]).is_empty());
}

#[test]
fn cover_keys_compare_owner_and_buyer_separately() {
    // ("a_b", "c") and ("a", "b_c") are two different pairs.
    let invs = vec![invoice("a_b", "c", true), invoice("a", "b_c", true), invoice("a_b", "c", true)];
    assert_eq!(group_for_cover(&invs), vec![vec![0, 2], vec![1]]);
}

#[test]
fn cover_files_follow_format() {
    assert_eq!(
        cover_output_files("/out", "张三", "甲", "both"),
        vec!["/out/费用报销审批单_张三_甲.xlsx".to_string(), "/out/费用报销审批单_张三_甲.pdf".to_string()]
    );
    assert_eq!(cover_output_files("/out", "a", "b", "pdf"), vec!["/out/费用报销审批单_a_b.pdf".to_string()]);
    assert_eq!(cover_output_files("/out", "a", "b", "xlsx"), vec!["/out/费用报销审批单_a_b.xlsx".to_string()]);
    assert!(cover_output_files("/out", "a", "b", "doc").is_empty());
    assert_eq!(ledger_output_file("/out"), "/out/费用台账.xlsx");
}

#[test]
fn merge_plan_pairs_files() {
    let files: Vec<String> = ["a.pdf", "b.pdf", "c.pdf"].iter().map(|s| s.to_string()).collect();
    let steps = plan_merge(&files, "发票").unwrap();
    assert_eq!(steps.len(), 2);
    assert_eq!(steps[0].inputs, vec!["a.pdf".to_string(), "b.pdf".to_string()]);
    assert_eq!(steps[0].output_name, "发票_001.pdf");
    assert_eq!(steps[1].inputs, vec!["c.pdf".to_string()]);
    assert_eq!(steps[1].output_name, "发票_002.pdf");
    assert_eq!(steps[1].temp_name, ".tmp_1.pdf");
    assert_eq!(plan_merge(&Vec::new(), "x").err().as_deref(), Some("没有需要合并的PDF"));
}

#[test]
fn merge_results_count_their_files() {
    let r = pdf_merge::MergeResult::new("/o".to_string(), vec!["/o/a.pdf".to_string()]);
    assert_eq!(r.total, 1);
    let r = py_merge::MergeResult::new("/o".to_string(), Vec::new());
    assert_eq!(r.total, 0);
    assert_eq!(merged_output_file("/o", "汇总"), "/o/汇总.pdf");
}

#[test]
fn cairo_path_first_set_wins() {
    let mut slot = PathSlot::new();
    set_pdftocairo_path(&mut slot, "a".to_string());
    set_pdftocairo_path(&mut slot, "b".to_string());
    assert_eq!(slot.get().as_deref(), Some("a"));
}

#[test]
fn search_order_for_scripts_and_tools() {
    let c = script_candidates("merge_pdfs.py");
    assert_eq!(c.len(), 9);
    assert_eq!(c[0].root, SearchRoot::WorkingDir);
    assert_eq!(c[0].parts, vec!["merge_pdfs.py".to_string()]);
    assert_eq!(c[2].root, SearchRoot::ExeDir(0));
    assert_eq!(c[2].parts, vec!["output_py_tools".to_string(), "merge_pdfs.py".to_string()]);
    assert_eq!(c[8].root, SearchRoot::ExeDir(3));
    let t = poppler_candidates("pdftotext.exe", 5);
    assert_eq!(t.len(), 10);
    assert_eq!(t[1].parts, vec!["resources/poppler/Library/bin/pdftotext.exe".to_string()]);
    assert_eq!(t[9].root, SearchRoot::ExeDir(4));
    let d = poppler_dev_candidates("pdftocairo.exe");
    assert_eq!(d[0].parts, vec!["src-tauri/poppler/Library/bin/pdftocairo.exe".to_string()]);
}

#[test]
fn seed_configuration() {
    let cats = default_categories();
    assert_eq!(cats.len(), 8);
    assert_eq!(cats[0], "加油费");
    let rows = default_mapping();
    assert_eq!(rows.len(), 4);
    assert_eq!(rows[2].project_pattern, "*汽油*|*燃油*");
    assert!(rows.iter().all(|r| cats.contains(&r.category)));
}

fn entry(keys: &[&str], category: Option<&str>) -> MappingEntry {
    MappingEntry::Object {
        fields: keys
            .iter()
            .map(|k| {
                let value = if *k == "报销类别" { category.map(|c| c.to_string()) } else { Some("x".to_string()) };
                (k.to_string(), value)
            })
            .collect(),
    }
}

#[test]
fn mapping_import_check() {
    let cats = default_categories();
    let all = ["项目名称", "通用项目名称", "大类别", "报销类别"];
    let good = Some(vec![entry(&all, Some("住宿费")), entry(&all, Some("餐饮费"))]);
    assert_eq!(check_mapping_import(&cats, &good), Ok(()));
    let unknown = Some(vec![entry(&all, Some("旅游费"))]);
    assert_eq!(check_mapping_import(&cats, &unknown), Err("导入失败".to_string()));
    let missing = Some(vec![entry(&["项目名称", "大类别", "报销类别"], Some("住宿费"))]);
    assert_eq!(check_mapping_import(&cats, &missing), Err("导入失败".to_string()));
    let not_obj = Some(vec![MappingEntry::NotObject]);
    assert_eq!(check_mapping_import(&cats, &not_obj), Err("导入失败".to_string()));
    assert_eq!(check_mapping_import(&cats, &None), Err("导入失败".to_string()));
    assert_eq!(check_mapping_import(&cats, &Some(Vec::new())), Ok(()));
    let no_cat = Some(vec![entry(&all, None)]);
    assert_eq!(check_mapping_import(&cats, &no_cat), Err("导入失败".to_string()));
}

#[test]
fn mapping_text_check_reads_both_files() {
    let cats = r#"["住宿费", "餐饮费"]"#;
    let good = r#"[{"项目名称": "*住宿*", "通用项目名称": "住宿", "大类别": "其他费用", "报销类别": "住宿费"}]"#;
    assert_eq!(check_mapping_text(cats, good), Ok(()));
    assert_eq!(check_mapping_text(cats, "[]"), Ok(()));
    assert_eq!(check_mapping_text("not json", good), Err("category.json 损坏".to_string()));
    assert_eq!(check_mapping_text(r#"[1, 2]"#, good), Err("category.json 损坏".to_string()));
    assert_eq!(check_mapping_text(cats, "not json"), Err("导入失败".to_string()));
    assert_eq!(check_mapping_text(cats, r#"{"a": 1}"#), Err("导入失败".to_string()));
    assert_eq!(check_mapping_text(cats, "[1]"), Err("导入失败".to_string()));
    let unknown = r#"[{"项目名称": "a", "通用项目名称": "b", "大类别": "c", "报销类别": "旅游费"}]"#;
    assert_eq!(check_mapping_text(cats, unknown), Err("导入失败".to_string()));
    let missing = r#"[{"项目名称": "a", "大类别": "c", "报销类别": "住宿费"}]"#;
    assert_eq!(check_mapping_text(cats, missing), Err("导入失败".to_string()));
    let cat_not_string = r#"[{"项目名称": "a", "通用项目名称": "b", "大类别": "c", "报销类别": 5}]"#;
    assert_eq!(check_mapping_text(r#"["", "住宿费"]"#, cat_not_string), Ok(()));
}

#[test]
fn mapping_rules_keep_string_pairs_in_order() {
    let text = r#"[
        {"项目名称": "*住宿*", "报销类别": "住宿费"},
        {"项目名称": 3, "报销类别": "餐饮费"},
        "not an object",
        {"报销类别": "加油费"},
        {"项目名称": "*ETC*", "通用项目名称": "过路", "报销类别": "过路费"}
    ]"#;
    let rules = mapping_rules_from_text(text);
    let pairs: Vec<(&str, &str)> = rules.iter().map(|r| (r.pattern.as_str(), r.category.as_str())).collect();
    assert_eq!(pairs, vec![("*住宿*", "住宿费"), ("*ETC*", "过路费")]);
    assert!(mapping_rules_from_text("{}").is_empty());
    assert!(mapping_rules_from_text("oops").is_empty());
    assert!(mapping_rules(&None).is_empty());
    let direct = mapping_rules(&Some(vec![entry(&["项目名称", "报销类别"], Some("住宿费"))]));
    assert_eq!(direct.len(), 1);
    assert_eq!(direct[0].pattern, "x");
    assert_eq!(direct[0].category, "住宿费");
}
