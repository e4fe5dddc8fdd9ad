use zeptoclaw::cli::memory::deleted_text;
use zeptoclaw::cli::memory::import_text;
use zeptoclaw::cli::memory::memory_list_text;
use zeptoclaw::cli::memory::memory_search_text;
use zeptoclaw::cli::memory::memory_stats_text;
use zeptoclaw::cli::memory::stored_text;
use zeptoclaw::cli::memory::MemoryEntryView;

fn entry(key: &str, category: &str, value: &str, tags: &[&str]) -> MemoryEntryView {
    MemoryEntryView {
        key: key.to_string(),
        category: category.to_string(),
        value: value.to_string(),
        tags: tags.iter().map(|t| t.to_string()).collect(),
    }
}

#[test]
fn memory_listing() {
    assert_eq!(
        memory_list_text(&vec![], None),
        "No memories stored yet.\nStore one: zeptoclaw memory set user:name \"Your Name\""
    );
    assert_eq!(memory_list_text(&vec![], Some("work")), "No memories in category 'work'.");
    let es = vec![entry("user:name", "user", "Ada", &["me", "id"]), entry("k", "misc", "v", &[])];
    let rule = "-".repeat(60);
    assert_eq!(
        memory_list_text(&es, None),
        format!("Long-term Memories (2)\n{}\n  user:name (user) [me, id]\n    Ada\n  k (misc)\n    v", rule)
    );
    assert_eq!(
        memory_search_text("ad", &es[..1].iter().map(|e| entry(&e.key, &e.category, &e.value, &["x"])).collect()),
        format!("Search results for 'ad' (1)\n{}\n  user:name (user)\n    Ada", rule)
    );
    assert_eq!(memory_search_text("zz", &vec![]), "No memories matching 'zz'.");
}

#[test]
fn memory_command_lines() {
    let long = "a".repeat(70);
    assert_eq!(
        stored_text("k", &long, "notes"),
        format!("Stored: k = \"{}...\" (notes)", "a".repeat(60))
    );
    assert_eq!(deleted_text("k", true), "Deleted: k");
    assert_eq!(deleted_text("k", false), "Memory 'k' not found.");
    assert_eq!(import_text(3, 0), "Import complete: 3 imported, 0 skipped");
    assert_eq!(
        import_text(1, 2),
        "Import complete: 1 imported, 2 skipped (use --overwrite to replace existing)"
    );
}

#[test]
fn memory_statistics() {
    assert_eq!(
        memory_stats_text(0, &vec![]),
        "Memory Statistics\n-----------------\n  Total entries: 0\n  Categories:    none"
    );
    assert_eq!(
        memory_stats_text(3, &vec![("user".to_string(), 2), ("work".to_string(), 1)]),
        "Memory Statistics\n-----------------\n  Total entries: 3\n  Categories:    user, work\n\n  user: 2 entries\n  work: 1 entries"
    );
}
