use steam_patch::patch::{
    apply_patches, revert_patches, AssetResolution, Patch, PatchFile, ResolvedAsset,
};

fn edit(dest: PatchFile, find: &str, replace: &str) -> Patch {
    Patch {
        destination: dest,
        text_to_find: find.as_bytes().to_vec(),
        replacement_text: replace.as_bytes().to_vec(),
    }
}

fn resolution(
    library: Option<(&str, Option<&str>)>,
    chunk: Option<(&str, Option<&str>)>,
) -> AssetResolution {
    let make = |slot: Option<(&str, Option<&str>)>| {
        slot.map(|(path, content)| ResolvedAsset {
            path: path.as_bytes().to_vec(),
            content: content.map(|c| c.as_bytes().to_vec()),
        })
    };
    AssetResolution { library: make(library), chunk: make(chunk) }
}

#[test]
fn single_edit_rewrites_file() {
    let patches = vec![edit(PatchFile::Chunk, "A=1", "A=2")];
    let res = resolution(None, Some(("/steamui/chunk.js", Some("x A=1 y"))));
    let writes = apply_patches(&patches, &res);
    assert_eq!(writes.len(), 1);
    assert_eq!(writes[0].path, b"/steamui/chunk.js".to_vec());
    assert_eq!(writes[0].content, b"x A=2 y".to_vec());
}

#[test]
fn apply_then_revert_restores_original() {
    let patches = vec![edit(PatchFile::Chunk, "A=1", "A=2")];
    let res = resolution(None, Some(("/steamui/chunk.js", Some("x A=1 y"))));
    let writes = apply_patches(&patches, &res);
    assert_eq!(writes[0].content, b"x A=2 y".to_vec());
    let patched = resolution(None, Some(("/steamui/chunk.js", Some("x A=2 y"))));
    let reverts = revert_patches(&patches, &patched);
    assert_eq!(reverts.len(), 1);
    assert_eq!(reverts[0].content, b"x A=1 y".to_vec());
}

#[test]
fn all_occurrences_are_replaced() {
    let patches = vec![edit(PatchFile::Chunk, "A=1", "A=2")];
    let res = resolution(None, Some(("/c.js", Some("A=1 mid A=1 end A=1"))));
    let writes = apply_patches(&patches, &res);
    assert_eq!(writes[0].content, b"A=2 mid A=2 end A=2".to_vec());
}

#[test]
fn missing_snippet_leaves_other_destinations_intact() {
    let patches = vec![
        edit(PatchFile::Library, "absent text", "whatever"),
        edit(PatchFile::Chunk, "old", "new"),
    ];
    let res = resolution(
        Some(("/steamui/library.js", Some("library body"))),
        Some(("/steamui/chunk.js", Some("the old value"))),
    );
    let writes = apply_patches(&patches, &res);
    assert_eq!(writes.len(), 1);
    assert_eq!(writes[0].path, b"/steamui/chunk.js".to_vec());
    assert_eq!(writes[0].content, b"the new value".to_vec());
}

#[test]
fn many_edits_one_destination_write_once() {
    let patches = vec![
        edit(PatchFile::Chunk, "a", "b"),
        edit(PatchFile::Chunk, "c", "d"),
        edit(PatchFile::Chunk, "e", "f"),
        edit(PatchFile::Chunk, "zzz", "yyy"),
    ];
    let res = resolution(None, Some(("/c.js", Some("a c e"))));
    let writes = apply_patches(&patches, &res);
    assert_eq!(writes.len(), 1);
    assert_eq!(writes[0].content, b"b d f".to_vec());
}

#[test]
fn edits_apply_in_order_on_one_buffer() {
    let patches = vec![
        edit(PatchFile::Chunk, "one", "two"),
        edit(PatchFile::Chunk, "two", "three"),
    ];
    let res = resolution(None, Some(("/c.js", Some("one"))));
    let writes = apply_patches(&patches, &res);
    assert_eq!(writes[0].content, b"three".to_vec());
}

#[test]
fn unresolved_destination_is_skipped() {
    let patches = vec![
        edit(PatchFile::Library, "x", "y"),
        edit(PatchFile::Chunk, "p", "q"),
    ];
    let res = resolution(None, Some(("/c.js", Some("p"))));
    let writes = apply_patches(&patches, &res);
    assert_eq!(writes.len(), 1);
    assert_eq!(writes[0].path, b"/c.js".to_vec());
    assert_eq!(writes[0].content, b"q".to_vec());
}

#[test]
fn unreadable_file_is_an_empty_buffer() {
    let patches = vec![edit(PatchFile::Chunk, "find me", "found")];
    let res = resolution(None, Some(("/c.js", None)));
    let writes = apply_patches(&patches, &res);
    assert!(writes.is_empty());
}

#[test]
fn untouched_buffers_are_not_written() {
    let patches = vec![edit(PatchFile::Chunk, "missing", "text")];
    let res = resolution(None, Some(("/c.js", Some("body without the snippet"))));
    let writes = apply_patches(&patches, &res);
    assert!(writes.is_empty());
}

#[test]
fn empty_snippet_matches_nowhere() {
    let patches = vec![edit(PatchFile::Chunk, "", "boom")];
    let res = resolution(None, Some(("/c.js", Some("anything"))));
    let writes = apply_patches(&patches, &res);
    assert!(writes.is_empty());
}

#[test]
fn two_roles_one_path_write_once() {
    let patches = vec![
        edit(PatchFile::Library, "a", "b"),
        edit(PatchFile::Chunk, "c", "d"),
    ];
    let res = resolution(Some(("/same.js", Some("a c"))), Some(("/same.js", Some("a c"))));
    let writes = apply_patches(&patches, &res);
    assert_eq!(writes.len(), 1);
    assert_eq!(writes[0].content, b"b d".to_vec());
}

#[test]
fn nothing_resolved_nothing_written() {
    let patches = vec![edit(PatchFile::Chunk, "a", "b")];
    let res = resolution(None, None);
    let writes = apply_patches(&patches, &res);
    assert!(writes.is_empty());
}

#[test]
fn disjoint_edits_round_trip_byte_for_byte() {
    let patches = vec![
        edit(PatchFile::Chunk, "alpha", "first"),
        edit(PatchFile::Chunk, "beta", "second"),
        edit(PatchFile::Library, "gamma", "third"),
    ];
    let original_chunk = "begin alpha middle beta end";
    let original_lib = "gamma body";
    let res = resolution(
        Some(("/lib.js", Some(original_lib))),
        Some(("/chunk.js", Some(original_chunk))),
    );
    let writes = apply_patches(&patches, &res);
    assert_eq!(writes.len(), 2);
    assert_eq!(writes[0].path, b"/chunk.js".to_vec());
    assert_eq!(writes[0].content, b"begin first middle second end".to_vec());
    assert_eq!(writes[1].path, b"/lib.js".to_vec());
    assert_eq!(writes[1].content, b"third body".to_vec());
    let patched = resolution(
        Some(("/lib.js", Some("third body"))),
        Some(("/chunk.js", Some("begin first middle second end"))),
    );
    let reverts = revert_patches(&patches, &patched);
    assert_eq!(reverts.len(), 2);
    assert_eq!(reverts[0].content, original_chunk.as_bytes().to_vec());
    assert_eq!(reverts[1].content, original_lib.as_bytes().to_vec());
}

#[test]
fn revert_searches_replacement_text() {
    let patches = vec![edit(PatchFile::Chunk, "old", "new")];
    let res = resolution(None, Some(("/c.js", Some("still old here"))));
    let reverts = revert_patches(&patches, &res);
    assert!(reverts.is_empty());
}
