use ftool::dirs::DirEntryInfo;
use ftool::state::{App, DirLoadMode, Effect, FilterField, GeoJsonTab, InspectorTab,
    JsonInspectorTab, Key, Message, Popup, Screen, TableRaw};
use ftool::total_pages;

fn fresh() -> App {
    App::new("/data".to_owned())
}

fn entry(name: &str, is_dir: bool) -> DirEntryInfo {
    DirEntryInfo {
        name: name.to_owned(),
        path: format!("/data/{}", name),
        is_dir,
        size: 0,
        modified: None,
    }
}

fn ok_table() -> TableRaw {
    TableRaw {
        schema: Ok(vec![
            ("status".to_owned(), "VARCHAR".to_owned()),
            ("age".to_owned(), "BIGINT".to_owned()),
        ]),
        row_count: Ok(120),
        null_counts: vec![Ok(0), Err("no stats".to_owned())],
        mean_values: vec![Err("not numeric".to_owned()), Ok("41.5".to_owned())],
        min_values: vec![Ok("a".to_owned()), Ok("1".to_owned())],
        max_values: vec![Ok("z".to_owned()), Ok("99".to_owned())],
        preview: Ok((vec!["status".to_owned(), "age".to_owned()], vec![vec![
            "active".to_owned(),
            "41".to_owned(),
        ]])),
    }
}

#[test]
fn total_pages_rounds_up() {
    assert_eq!(total_pages(0), 0);
    assert_eq!(total_pages(1), 1);
    assert_eq!(total_pages(50), 1);
    assert_eq!(total_pages(51), 2);
    assert_eq!(total_pages(120), 3);
}

#[test]
fn opening_a_parquet_entry_loads_a_snapshot_and_opens_the_inspector() {
    // the scenario: activating `data.parquet` in the browser loads schema,
    // row count and a first page, then lands on the schema tab
    let mut app = fresh();
    app.apply_dir_listing(
        DirLoadMode::EnterBrowser,
        Ok((None, vec![entry("data.parquet", false)])),
    );
    assert_eq!(app.current_screen, Screen::FileBrowser);
    let effect = app.update(Message::Enter);
    match effect {
        Effect::LoadTable { ref path } => assert_eq!(path, "/data/data.parquet"),
        _ => panic!("expected a table load"),
    }
    assert_eq!(app.inspector_file.as_deref(), Some("/data/data.parquet"));
    app.apply_table_data(ok_table());
    assert_eq!(app.current_screen, Screen::DataInspector);
    assert_eq!(app.inspector_tab, InspectorTab::Schema);
    assert_eq!(app.inspector_row_count, 120);
    assert_eq!(app.inspector_schema.len(), 2);
    assert_eq!(app.inspector_null_counts, vec![0, 0]);
    assert_eq!(app.inspector_mean_values, vec!["-".to_owned(), "41.5".to_owned()]);
    assert_eq!(app.inspector_preview_data.len(), 1);
    assert_eq!(app.inspector_page, 0);
    assert_eq!(app.inspector_scroll, 0);
}

#[test]
fn failed_snapshot_load_reports_and_changes_nothing_else() {
    let mut app = fresh();
    app.apply_dir_listing(
        DirLoadMode::EnterBrowser,
        Ok((None, vec![entry("data.parquet", false)])),
    );
    app.update(Message::Enter);
    let mut raw = ok_table();
    raw.schema = Err("File not found: /data/data.parquet".to_owned());
    app.apply_table_data(raw);
    assert_eq!(app.current_screen, Screen::FileBrowser);
    match &app.popup {
        Popup::Message { title, body } => {
            assert_eq!(title, "Error");
            assert_eq!(body, "File not found: /data/data.parquet");
        },
        _ => panic!("expected an error popup"),
    }
    assert_eq!(app.inspector_row_count, 0);
}

#[test]
fn page_is_clamped_and_each_change_fetches_one_page() {
    let mut app = fresh();
    app.apply_dir_listing(
        DirLoadMode::EnterBrowser,
        Ok((None, vec![entry("data.parquet", false)])),
    );
    app.update(Message::Enter);
    app.apply_table_data(ok_table());
    app.update(Message::SwitchTab);
    assert_eq!(app.inspector_tab, InspectorTab::Preview);
    // three pages for 120 rows; forward twice, then stop at the edge
    match app.update(Message::NextPage) {
        Effect::FetchPage { limit, offset, .. } => {
            assert_eq!((limit, offset), (50, 50));
        },
        _ => panic!("expected a page fetch"),
    }
    assert_eq!(app.inspector_page, 1);
    match app.update(Message::NextPage) {
        Effect::FetchPage { offset, .. } => assert_eq!(offset, 100),
        _ => panic!("expected a page fetch"),
    }
    assert_eq!(app.inspector_page, 2);
    assert!(matches!(app.update(Message::NextPage), Effect::Idle));
    assert_eq!(app.inspector_page, 2);
    // a successful fetch resets the scroll
    app.inspector_scroll = 7;
    app.apply_page_result(Ok((vec!["status".to_owned()], vec![])));
    assert_eq!(app.inspector_scroll, 0);
    // and backward past the first page stops at zero
    app.update(Message::PrevPage);
    app.update(Message::PrevPage);
    assert_eq!(app.inspector_page, 0);
    assert!(matches!(app.update(Message::PrevPage), Effect::Idle));
    assert_eq!(app.inspector_page, 0);
}

#[test]
fn paging_is_ignored_off_the_preview_tab() {
    let mut app = fresh();
    app.apply_dir_listing(
        DirLoadMode::EnterBrowser,
        Ok((None, vec![entry("data.parquet", false)])),
    );
    app.update(Message::Enter);
    app.apply_table_data(ok_table());
    assert_eq!(app.inspector_tab, InspectorTab::Schema);
    assert!(matches!(app.update(Message::NextPage), Effect::Idle));
    assert_eq!(app.inspector_page, 0);
}

#[test]
fn applying_a_filter_recounts_first_then_fetches_page_zero() {
    // the scenario: `status = 'active'` on the preview tab
    let mut app = fresh();
    app.apply_dir_listing(
        DirLoadMode::EnterBrowser,
        Ok((None, vec![entry("data.parquet", false)])),
    );
    app.update(Message::Enter);
    app.apply_table_data(ok_table());
    app.update(Message::SwitchTab);
    app.update(Message::NextPage);
    app.inspector_scroll = 5;
    // open the editor and type the condition through the reducer
    app.update(Message::OpenFilterPopup);
    assert!(matches!(app.popup, Popup::FilterEditor(_)));
    for c in "active".chars() {
        app.update(Message::FilterChar(c));
    }
    app.update(Message::FilterAddCondition);
    let count_effect = app.update(Message::FilterApply);
    // page and scroll reset together, the popup closes, the count comes first
    assert_eq!(app.inspector_page, 0);
    assert_eq!(app.inspector_scroll, 0);
    assert!(matches!(app.popup, Popup::Inactive));
    assert_eq!(app.inspector_filters.len(), 1);
    match count_effect {
        Effect::CountRows { path, predicate } => {
            assert_eq!(path, "/data/data.parquet");
            assert_eq!(predicate, "WHERE \"status\" = 'active'");
        },
        _ => panic!("expected a recount"),
    }
    // the recount lands, then page zero is fetched under the same predicate
    match app.apply_count_result(Ok(2)) {
        Effect::FetchPage { offset, predicate, .. } => {
            assert_eq!(offset, 0);
            assert_eq!(predicate, "WHERE \"status\" = 'active'");
        },
        _ => panic!("expected the page-zero fetch"),
    }
    assert_eq!(app.inspector_row_count, 2);
    app.apply_page_result(Ok((vec!["status".to_owned()], vec![vec!["active".to_owned()]])));
    assert_eq!(app.inspector_scroll, 0);
    assert_eq!(app.inspector_preview_data.len(), 1);
}

#[test]
fn failed_recount_reports_and_keeps_the_shown_data() {
    let mut app = fresh();
    app.apply_dir_listing(
        DirLoadMode::EnterBrowser,
        Ok((None, vec![entry("data.parquet", false)])),
    );
    app.update(Message::Enter);
    app.apply_table_data(ok_table());
    app.update(Message::SwitchTab);
    app.update(Message::OpenFilterPopup);
    app.update(Message::FilterAddCondition);
    app.update(Message::FilterApply);
    let shown_rows = app.inspector_preview_data.clone();
    let effect = app.apply_count_result(Err("Query execution error: boom".to_owned()));
    assert!(matches!(effect, Effect::Idle));
    assert_eq!(app.inspector_row_count, 120);
    assert_eq!(app.inspector_preview_data, shown_rows);
    assert!(matches!(app.popup, Popup::Message { .. }));
}

#[test]
fn filter_editor_keys_map_by_active_field() {
    let mut app = fresh();
    app.apply_dir_listing(
        DirLoadMode::EnterBrowser,
        Ok((None, vec![entry("data.parquet", false)])),
    );
    app.update(Message::Enter);
    app.apply_table_data(ok_table());
    app.update(Message::SwitchTab);
    app.update(Message::OpenFilterPopup);
    // on the column field, letters do nothing and `d` removes a condition
    assert_eq!(app.map_input(Key::Char('x'), false), Message::Noop);
    assert_eq!(app.map_input(Key::Char('d'), false), Message::FilterRemoveLast);
    assert_eq!(app.map_input(Key::Enter, false), Message::FilterTabNext);
    // move to the value field: column -> operator -> value
    app.update(Message::FilterTabNext);
    app.update(Message::FilterTabNext);
    match &app.popup {
        Popup::FilterEditor(st) => assert_eq!(st.active_field, FilterField::Value),
        _ => panic!(),
    }
    // on the value field, letters append, and Enter with an empty buffer applies
    assert_eq!(app.map_input(Key::Char('d'), false), Message::FilterChar('d'));
    assert_eq!(app.map_input(Key::Enter, false), Message::FilterApply);
    app.update(Message::FilterChar('x'));
    assert_eq!(app.map_input(Key::Enter, false), Message::FilterAddCondition);
    app.update(Message::FilterBackspace);
    assert_eq!(app.map_input(Key::Enter, false), Message::FilterApply);
}

#[test]
fn unary_operator_skips_the_value_field() {
    let mut app = fresh();
    app.apply_dir_listing(
        DirLoadMode::EnterBrowser,
        Ok((None, vec![entry("data.parquet", false)])),
    );
    app.update(Message::Enter);
    app.apply_table_data(ok_table());
    app.update(Message::SwitchTab);
    app.update(Message::OpenFilterPopup);
    // operator index 7 is IS NULL; select it, then Tab from the operator field
    app.update(Message::FilterTabNext);
    for _ in 0..7 {
        app.update(Message::FilterNavDown);
    }
    app.update(Message::FilterTabNext);
    match &app.popup {
        Popup::FilterEditor(st) => {
            assert_eq!(st.operator_idx, 7);
            assert_eq!(st.active_field, FilterField::Column);
        },
        _ => panic!(),
    }
}

#[test]
fn global_and_screen_key_maps() {
    let mut app = fresh();
    assert_eq!(app.map_input(Key::Char('q'), false), Message::Quit);
    assert_eq!(app.map_input(Key::Char('c'), true), Message::Quit);
    assert_eq!(app.map_input(Key::Down, false), Message::NavigateDown);
    assert_eq!(app.map_input(Key::Char('j'), false), Message::NavigateDown);
    assert_eq!(app.map_input(Key::Esc, false), Message::Noop);
    app.current_screen = Screen::DataInspector;
    assert_eq!(app.map_input(Key::Char('c'), false), Message::ConvertFile);
    assert_eq!(app.map_input(Key::Char('f'), false), Message::OpenFilterPopup);
    assert_eq!(app.map_input(Key::Right, false), Message::NextPage);
    assert_eq!(app.map_input(Key::Esc, false), Message::Back);
}

#[test]
fn popup_takes_input_before_the_screen() {
    let mut app = fresh();
    app.popup = Popup::Message { title: "Error".to_owned(), body: "x".to_owned() };
    assert_eq!(app.map_input(Key::Char('q'), false), Message::Noop);
    assert_eq!(app.map_input(Key::Enter, false), Message::ClosePopup);
    assert_eq!(app.map_input(Key::Esc, false), Message::ClosePopup);
    app.update(Message::ClosePopup);
    assert!(matches!(app.popup, Popup::Inactive));
}

#[test]
fn navigation_stays_in_bounds() {
    let mut app = fresh();
    app.update(Message::NavigateUp);
    assert_eq!(app.home_selected, 0);
    app.update(Message::NavigateDown);
    app.update(Message::NavigateDown);
    assert_eq!(app.home_selected, 1);
    app.apply_dir_listing(
        DirLoadMode::EnterBrowser,
        Ok((Some("/".to_owned()), vec![entry("a", true), entry("b", false)])),
    );
    assert_eq!(app.current_screen, Screen::FileBrowser);
    assert_eq!(app.browser_selected, 0);
    app.update(Message::NavigateDown);
    app.update(Message::NavigateDown);
    app.update(Message::NavigateDown);
    assert_eq!(app.browser_selected, 2);
}

#[test]
fn back_walks_inspector_browser_home() {
    let mut app = fresh();
    app.apply_dir_listing(DirLoadMode::EnterBrowser, Ok((None, vec![entry("x.json", false)])));
    app.current_screen = Screen::JsonInspector;
    app.update(Message::Back);
    assert_eq!(app.current_screen, Screen::FileBrowser);
    app.update(Message::Back);
    assert_eq!(app.current_screen, Screen::Home);
    app.update(Message::Back);
    assert_eq!(app.current_screen, Screen::Home);
}

#[test]
fn entering_a_directory_descends_and_reloads() {
    let mut app = fresh();
    app.apply_dir_listing(DirLoadMode::EnterBrowser, Ok((None, vec![entry("sub", true)])));
    match app.update(Message::Enter) {
        Effect::LoadDir { path, mode } => {
            assert_eq!(path, "/data/sub");
            assert_eq!(mode, DirLoadMode::StayBrowser);
        },
        _ => panic!("expected a directory load"),
    }
    assert_eq!(app.current_dir, "/data/sub");
    assert_eq!(app.browser_selected, 0);
}

#[test]
fn failed_directory_load_reports_unless_silent() {
    let mut app = fresh();
    app.apply_dir_listing(DirLoadMode::EnterBrowser, Err("Permission denied: /data".to_owned()));
    assert_eq!(app.current_screen, Screen::Home);
    assert!(matches!(app.popup, Popup::Message { .. }));
    let mut app2 = fresh();
    app2.apply_dir_listing(DirLoadMode::Silent, Err("Permission denied: /data".to_owned()));
    assert!(matches!(app2.popup, Popup::Inactive));
}

#[test]
fn convert_flow_builds_popups() {
    let mut app = fresh();
    app.apply_dir_listing(
        DirLoadMode::EnterBrowser,
        Ok((None, vec![entry("data.csv", false)])),
    );
    app.update(Message::Enter);
    app.apply_table_data(ok_table());
    app.update(Message::ConvertFile);
    match &app.popup {
        Popup::ConvertConfirm { target_format } => assert_eq!(target_format, "parquet"),
        _ => panic!("expected the confirmation popup"),
    }
    match app.update(Message::ConfirmConvert) {
        Effect::RunConvert { path, target } => {
            assert_eq!(path, "/data/data.csv");
            assert_eq!(target, "parquet");
        },
        _ => panic!("expected a conversion request"),
    }
    app.apply_convert_result(Ok("/data/data.parquet".to_owned()));
    match &app.popup {
        Popup::Message { title, body } => {
            assert_eq!(title, "Success");
            assert_eq!(body, "Converted to /data/data.parquet");
        },
        _ => panic!("expected the success popup"),
    }
    app.apply_convert_result(Err("Query execution error: nope".to_owned()));
    match &app.popup {
        Popup::Message { title, .. } => assert_eq!(title, "Error"),
        _ => panic!("expected the error popup"),
    }
}

#[test]
fn opening_a_json_entry_builds_the_document_snapshot() {
    let mut app = fresh();
    app.apply_dir_listing(
        DirLoadMode::EnterBrowser,
        Ok((None, vec![entry("doc.json", false)])),
    );
    match app.update(Message::Enter) {
        Effect::LoadJson { ref path } => assert_eq!(path, "/data/doc.json"),
        _ => panic!("expected a document load"),
    }
    app.apply_json_text("/data/doc.json".to_owned(), Ok("{\"a\": [1, 2]}".to_owned()));
    assert_eq!(app.current_screen, Screen::JsonInspector);
    assert_eq!(app.json_tree_nodes.len(), 4);
    assert_eq!(app.json_raw, "{\n  \"a\": [\n    1,\n    2\n  ]\n}");
    assert!(app.json_geosummary.is_none());
    // toggling the container under the cursor collapses its subtree
    app.update(Message::ScrollDown);
    app.update(Message::ToggleTreeNode);
    assert_eq!(app.json_tree_nodes.len(), 2);
    app.update(Message::ToggleTreeNode);
    assert_eq!(app.json_tree_nodes.len(), 4);
}

#[test]
fn bad_json_reports_and_stays_put() {
    let mut app = fresh();
    app.apply_dir_listing(
        DirLoadMode::EnterBrowser,
        Ok((None, vec![entry("doc.json", false)])),
    );
    app.update(Message::Enter);
    app.apply_json_text("/data/doc.json".to_owned(), Ok("{ nope".to_owned()));
    assert_eq!(app.current_screen, Screen::FileBrowser);
    match &app.popup {
        Popup::Message { title, .. } => assert_eq!(title, "Error"),
        _ => panic!("expected an error popup"),
    }
}

#[test]
fn geo_tabs_cycle_and_reset_the_scroll() {
    let mut app = fresh();
    app.apply_dir_listing(
        DirLoadMode::EnterBrowser,
        Ok((None, vec![entry("pts.geojson", false)])),
    );
    app.update(Message::Enter);
    app.apply_json_text(
        "/data/pts.geojson".to_owned(),
        Ok("{\"type\": \"FeatureCollection\", \"features\": [\
            {\"geometry\": {\"type\": \"Point\", \"coordinates\": [1.0, 2.0]},\
             \"properties\": {\"a\": 1}}]}"
            .to_owned()),
    );
    assert_eq!(app.current_screen, Screen::JsonInspector);
    assert_eq!(app.geo_tab, GeoJsonTab::Summary);
    let gs = app.json_geosummary.as_ref().unwrap();
    assert_eq!(gs.feature_count, 1);
    assert_eq!(gs.geometry_types, vec!["Point".to_owned()]);
    // Tab on a geographic document cycles the geographic tabs
    assert_eq!(app.map_input(Key::Tab, false), Message::SwitchGeoTab);
    app.json_scroll = 3;
    app.update(Message::SwitchGeoTab);
    assert_eq!(app.geo_tab, GeoJsonTab::Features);
    assert_eq!(app.json_scroll, 0);
    app.update(Message::SwitchGeoTab);
    assert_eq!(app.geo_tab, GeoJsonTab::Tree);
    app.update(Message::SwitchGeoTab);
    assert_eq!(app.geo_tab, GeoJsonTab::Summary);
}

#[test]
fn plain_json_tab_toggles_tree_and_raw() {
    let mut app = fresh();
    app.apply_dir_listing(DirLoadMode::EnterBrowser, Ok((None, vec![entry("d.json", false)])));
    app.update(Message::Enter);
    app.apply_json_text("/data/d.json".to_owned(), Ok("[1, 2, 3]".to_owned()));
    assert_eq!(app.json_tab, JsonInspectorTab::Tree);
    assert_eq!(app.map_input(Key::Tab, false), Message::SwitchTab);
    app.update(Message::SwitchTab);
    assert_eq!(app.json_tab, JsonInspectorTab::Raw);
    app.update(Message::SwitchTab);
    assert_eq!(app.json_tab, JsonInspectorTab::Tree);
}

#[test]
fn json_scroll_stays_within_the_tree() {
    let mut app = fresh();
    app.apply_dir_listing(DirLoadMode::EnterBrowser, Ok((None, vec![entry("d.json", false)])));
    app.update(Message::Enter);
    app.apply_json_text("/data/d.json".to_owned(), Ok("[1, 2]".to_owned()));
    // three entries: the array and its two elements
    assert_eq!(app.json_tree_nodes.len(), 3);
    app.update(Message::ScrollUp);
    assert_eq!(app.json_scroll, 0);
    app.update(Message::ScrollDown);
    app.update(Message::ScrollDown);
    app.update(Message::ScrollDown);
    assert_eq!(app.json_scroll, 2);
}

#[test]
fn back_from_the_inspector_reloads_a_missing_listing() {
    let mut app = fresh();
    app.inspector_file = Some("/data/x.csv".to_owned());
    app.current_screen = Screen::DataInspector;
    match app.update(Message::Back) {
        Effect::LoadParentDir { file } => assert_eq!(file, "/data/x.csv"),
        _ => panic!("expected a parent-directory load"),
    }
    assert_eq!(app.current_screen, Screen::FileBrowser);
}

#[test]
fn quit_sets_the_flag() {
    let mut app = fresh();
    assert!(!app.should_quit);
    app.update(Message::Quit);
    assert!(app.should_quit);
}
