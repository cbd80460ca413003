use std::path::PathBuf;

use typwriter::export::{ExportError, ExportFormat, ExportPlan, ExportPngOptions, ExportSvgOptions};
use typwriter::manager::ProjectManager;
use typwriter::navigation::{DocumentClickResponse, JumpTarget};
use typwriter::render::render_response;
use typwriter::session::{ClickError, CursorPositionError, DocumentCache, RenderError};
use typwriter::world::{FileIdentity, FileRegistry, TypstCompilerError};

fn compiled(pages: usize) -> DocumentCache<u32> {
    let mut cache = DocumentCache::new();
    assert!(cache.record_compile(vec![], Ok((7, pages))).is_ok());
    cache
}

fn names(plan: &ExportPlan) -> Vec<String> {
    match plan {
        ExportPlan::Png(outs) | ExportPlan::Svg(outs) => outs.iter().map(|o| o.file_name.clone()).collect(),
        _ => vec![],
    }
}

#[test]
fn test_export_format_variants() {
    let pdf = ExportFormat::PDF;
    let png = ExportFormat::PNG(ExportPngOptions { start_page: 0, end_page: 1 });
    let svg = ExportFormat::SVG(ExportSvgOptions { start_page: 0, end_page: 1, merged: false });
    match pdf {
        ExportFormat::PDF => {}
        _ => panic!("Expected PDF variant"),
    }
    match png {
        ExportFormat::PNG(_) => {}
        _ => panic!("Expected PNG variant"),
    }
    match svg {
        ExportFormat::SVG(_) => {}
        _ => panic!("Expected SVG variant"),
    }
}

#[test]
fn test_typst_compiler_export_main_no_document() {
    let mut cache: DocumentCache<u32> = DocumentCache::new();
    let result = cache.plan_export_after_compile(vec![], Err(vec![]), ExportFormat::PDF, "output");
    assert!(matches!(result, Err(ExportError::NoDocument)));
}

#[test]
fn plan_without_document_has_no_document() {
    let cache: DocumentCache<u32> = DocumentCache::new();
    let result = cache.plan_export(ExportFormat::PDF, "output");
    assert!(matches!(result, Err(ExportError::NoDocument)));
}

#[test]
fn test_typst_compiler_get_compilation_cache_empty() {
    let cache: DocumentCache<u32> = DocumentCache::new();
    assert!(cache.get().is_none());
}

#[test]
fn test_typst_compiler_reset_compilation_cache() {
    let mut cache = compiled(2);
    cache.reset();
    assert!(cache.get().is_none());
}

#[test]
fn test_typst_compiler_render_page_n_no_cache() {
    let cache: DocumentCache<u32> = DocumentCache::new();
    assert!(cache.page_to_render(0).is_err());
}

#[test]
fn test_typst_compiler_render_main_no_cache() {
    let cache: DocumentCache<u32> = DocumentCache::new();
    assert_eq!(cache.pages_to_render(), Err(RenderError::NoCompilationCache));
}

#[test]
fn test_get_cursor_position_info_no_cache() {
    let cache: DocumentCache<u32> = DocumentCache::new();
    assert_eq!(cache.document_for_cursor().err(), Some(CursorPositionError::NoCompilationCache));
}

#[test]
fn test_handle_page_click_no_cache() {
    let cache: DocumentCache<u32> = DocumentCache::new();
    assert_eq!(cache.page_for_click(0).err(), Some(ClickError::NoCompilationCache));
}

#[test]
fn png_export_range_is_clamped_to_the_document() {
    let cache = compiled(3);
    let plan = cache
        .plan_export(ExportFormat::PNG(ExportPngOptions { start_page: 0, end_page: 10 }), "report")
        .unwrap();
    assert_eq!(names(&plan), vec!["report_page_1.png", "report_page_2.png", "report_page_3.png"]);
}

#[test]
fn svg_export_of_a_middle_range() {
    let cache = compiled(12);
    let plan = cache
        .plan_export(ExportFormat::SVG(ExportSvgOptions { start_page: 9, end_page: 10, merged: false }), "doc")
        .unwrap();
    assert_eq!(names(&plan), vec!["doc_page_10.svg", "doc_page_11.svg"]);
}

#[test]
fn merged_svg_ignores_the_range_and_pdf_is_whole() {
    let cache = compiled(2);
    let merged = cache
        .plan_export(ExportFormat::SVG(ExportSvgOptions { start_page: 5, end_page: 1, merged: true }), "d")
        .unwrap();
    assert!(matches!(merged, ExportPlan::SvgMerged));
    assert!(matches!(cache.plan_export(ExportFormat::PDF, "d").unwrap(), ExportPlan::Pdf));
}

#[test]
fn empty_or_inverted_range_exports_nothing() {
    let cache = compiled(3);
    let plan = cache
        .plan_export(ExportFormat::PNG(ExportPngOptions { start_page: 2, end_page: 1 }), "x")
        .unwrap();
    assert!(names(&plan).is_empty());
    let plan = cache
        .plan_export(ExportFormat::PNG(ExportPngOptions { start_page: 5, end_page: 9 }), "x")
        .unwrap();
    assert!(names(&plan).is_empty());
}

#[test]
fn click_outside_the_pages_is_no_page() {
    let cache = compiled(2);
    assert_eq!(cache.page_for_click(5).err(), Some(ClickError::NoPage));
    assert_eq!(cache.page_for_click(1).ok(), Some(&7));
    assert_eq!(cache.page_to_render(2).err(), Some(RenderError::NoPage));
    assert_eq!(cache.pages_to_render(), Ok(2));
}

#[test]
fn registry_maps_paths_and_identities_both_ways() {
    let mut registry = FileRegistry::new();
    assert_eq!(registry.entry_identity().vpath, "/main.typ");
    let id = registry.add_file("chapter.typ", "/proj/chapter.typ".to_string(), b"= One".to_vec());
    assert_eq!(id.vpath, "/chapter.typ");
    assert!(id.package.is_none());
    assert!(registry.get_file_id("/proj/chapter.typ").unwrap().same(&id));
    assert_eq!(registry.get_file_path(&id), Some("/proj/chapter.typ".to_string()));
    assert_eq!(registry.file(&id), Some(&b"= One".to_vec()));
    assert!(registry.get_file_id("/proj/other.typ").is_none());
    assert_eq!(registry.set_active_file("/proj/other.typ"), Err(TypstCompilerError::FileNotFound));
    assert_eq!(registry.set_active_file("/proj/chapter.typ"), Ok(()));
    assert!(registry.entry_identity().same(&id));
}

#[test]
fn overlay_replaces_content_and_sets_entry() {
    let mut registry = FileRegistry::new();
    let id = registry.set_main_source("./main.typ", "A".to_string());
    assert_eq!(id.vpath, "/main.typ");
    assert!(registry.entry_identity().same(&id));
    registry.update_source(id.duplicate(), "#nope".to_string());
    assert_eq!(registry.file(&id), Some(&b"#nope".to_vec()));
    assert!(registry.get_file_path(&id).is_none());
    registry.update_file("/p/b.typ".to_string(), "b.typ", "B".to_string());
    let b = registry.get_file_id("/p/b.typ").unwrap();
    assert_eq!(registry.file(&b), Some(&b"B".to_vec()));
    registry.update_file("/p/b.typ".to_string(), "ignored.typ", "BB".to_string());
    assert_eq!(registry.file(&b), Some(&b"BB".to_vec()));
    assert!(registry.entry_identity().same(&id));
}

#[test]
fn click_targets_are_classified() {
    let mut registry = FileRegistry::new();
    let id = registry.add_file("main.typ", "/proj/main.typ".to_string(), vec![]);
    let text = "é = Title";
    match registry.classify_jump(Some(JumpTarget::File(id.duplicate(), 2)), text) {
        DocumentClickResponse::FileJump(f) => {
            assert_eq!(f.file, "/proj/main.typ");
            assert_eq!(f.position, 1);
        }
        _ => panic!("expected a file jump"),
    }
    let unknown = FileIdentity { package: Some("@preview/pkg:0.1.0".to_string()), vpath: "/lib.typ".to_string() };
    assert!(matches!(registry.classify_jump(Some(JumpTarget::File(unknown, 0)), text), DocumentClickResponse::NoJump));
    let point = typst::layout::Point::zero();
    match registry.classify_jump(Some(JumpTarget::Position(3, point)), text) {
        DocumentClickResponse::PositionJump(p) => {
            assert_eq!(p.page, 3);
            assert_eq!(p.point, point);
        }
        _ => panic!("expected a position jump"),
    }
    match registry.classify_jump(Some(JumpTarget::Url("https://example.com".to_string())), text) {
        DocumentClickResponse::UrlJump(u) => assert_eq!(u.url, "https://example.com"),
        _ => panic!("expected a url jump"),
    }
    assert!(matches!(registry.classify_jump(None, text), DocumentClickResponse::NoJump));
}

#[test]
fn render_response_encodes_png_bytes() {
    let r = render_response(Some(b"abcd".to_vec()), 800, 600);
    assert_eq!(r.image, "YWJjZA==");
    assert_eq!((r.width, r.height), (800, 600));
    let empty = render_response(None, 800, 600);
    assert_eq!(empty.image, "");
    assert_eq!((empty.width, empty.height), (0, 0));
}

#[test]
fn project_manager_tracks_files() {
    let mut manager = ProjectManager::new(PathBuf::from("/proj"), vec![PathBuf::from("/proj/a.typ")]);
    assert!(manager.current_file.is_none());
    manager.add_file(PathBuf::from("/proj/b.typ"));
    assert_eq!(manager.entries.len(), 2);
    manager.set_active_file(PathBuf::from("/proj/missing"), false);
    assert!(manager.current_file.is_none());
    manager.set_active_file(PathBuf::from("/proj/b.typ"), true);
    assert_eq!(manager.current_file, Some(PathBuf::from("/proj/b.typ")));
    assert_eq!(manager.root, PathBuf::from("/proj"));
}

#[test]
fn export_after_failed_compile_has_no_document_even_with_an_older_one() {
    let mut cache = compiled(2);
    let r = cache.plan_export_after_compile(vec![], Err(vec![]), ExportFormat::PDF, "out");
    assert!(matches!(r, Err(ExportError::NoDocument)));
    assert_eq!(cache.page_count(), Some(2));
    let mut empty: DocumentCache<u32> = DocumentCache::new();
    let r = empty.plan_export_after_compile(vec![], Err(vec![]), ExportFormat::PDF, "out");
    assert!(matches!(r, Err(ExportError::NoDocument)));
    assert!(empty.get().is_none());
    let r = empty.plan_export_after_compile(
        vec![],
        Ok((9, 3)),
        ExportFormat::PNG(ExportPngOptions { start_page: 0, end_page: 10 }),
        "out",
    );
    assert_eq!(names(&r.unwrap()), vec!["out_page_1.png", "out_page_2.png", "out_page_3.png"]);
}

#[test]
fn compiling_a_path_uses_its_registered_identity_or_its_name() {
    let mut registry = FileRegistry::new();
    let known = registry.add_file("ch1.typ", "/proj/sub/ch1.typ".to_string(), b"old".to_vec());
    let id = registry.set_main_file_source("/proj/sub/ch1.typ", "ignored.typ", "new".to_string());
    assert!(id.same(&known));
    assert!(registry.entry_identity().same(&known));
    assert_eq!(registry.file(&known), Some(&b"new".to_vec()));
    let fresh = registry.set_main_file_source("/elsewhere/notes.typ", "notes.typ", "n".to_string());
    assert_eq!(fresh.vpath, "/notes.typ");
    assert!(registry.get_file_path(&fresh).is_none());
    assert_eq!(registry.file(&fresh), Some(&b"n".to_vec()));
}
