use uuid::Uuid;

use bettercoding::attachments::{
    build_workspace_attachment_markdown, escape_markdown_label, find_unescaped_char,
    normalize_prompt, rewrite_imported_issue_attachments_markdown, ImportedIssueAttachment,
};

fn imported_file(
    attachment_id: Uuid,
    original_name: &str,
    file_path: &str,
) -> ImportedIssueAttachment {
    ImportedIssueAttachment {
        attachment_id: attachment_id.as_u128(),
        file_id: Uuid::new_v4().as_u128(),
        file_path: file_path.to_string(),
        original_name: original_name.to_string(),
    }
}

#[test]
fn rewrites_imported_non_image_attachment_links() {
    let attachment_id = Uuid::new_v4();
    let prompt = format!("[proposal.pdf](attachment://{})", attachment_id);
    let imported = vec![imported_file(attachment_id, "proposal.pdf", "abc_proposal.pdf")];

    let rewritten = rewrite_imported_issue_attachments_markdown(&prompt, &imported);

    assert_eq!(
        rewritten,
        "[proposal.pdf](.vibe-attachments/abc_proposal.pdf)"
    );
}

#[test]
fn preserves_authored_image_markdown_for_imported_images() {
    let attachment_id = Uuid::new_v4();
    let prompt = format!("![diagram.png](attachment://{})", attachment_id);
    let imported = vec![imported_file(attachment_id, "diagram.png", "xyz_diagram.png")];

    let rewritten = rewrite_imported_issue_attachments_markdown(&prompt, &imported);

    assert_eq!(
        rewritten,
        "![diagram.png](.vibe-attachments/xyz_diagram.png)"
    );
}

#[test]
fn preserves_authored_link_markdown_for_imported_images() {
    let attachment_id = Uuid::new_v4();
    let prompt = format!("[diagram.png](attachment://{})", attachment_id);
    let imported = vec![imported_file(attachment_id, "diagram.png", "xyz_diagram.png")];

    let rewritten = rewrite_imported_issue_attachments_markdown(&prompt, &imported);

    assert_eq!(
        rewritten,
        "[diagram.png](.vibe-attachments/xyz_diagram.png)"
    );
}

#[test]
fn preserves_authored_image_markdown_for_imported_non_images() {
    let attachment_id = Uuid::new_v4();
    let prompt = format!("![proposal.pdf](attachment://{})", attachment_id);
    let imported = vec![imported_file(attachment_id, "proposal.pdf", "abc_proposal.pdf")];

    let rewritten = rewrite_imported_issue_attachments_markdown(&prompt, &imported);

    assert_eq!(
        rewritten,
        "![proposal.pdf](.vibe-attachments/abc_proposal.pdf)"
    );
}

#[test]
fn leaves_unknown_attachment_references_unchanged() {
    let prompt = format!("[proposal.pdf](attachment://{})", Uuid::new_v4());
    let imported = vec![imported_file(Uuid::new_v4(), "proposal.pdf", "abc_proposal.pdf")];

    let rewritten = rewrite_imported_issue_attachments_markdown(&prompt, &imported);

    assert_eq!(rewritten, prompt);
}

#[test]
fn rewrites_multiple_attachments_and_leaves_other_links_alone() {
    let image_attachment_id = Uuid::new_v4();
    let file_attachment_id = Uuid::new_v4();
    let prompt = format!(
        "See [doc.pdf](attachment://{}) and ![shot.png](attachment://{}). https://example.com",
        file_attachment_id, image_attachment_id
    );
    let imported = vec![
        imported_file(file_attachment_id, "doc.pdf", "doc_file.pdf"),
        imported_file(image_attachment_id, "shot.png", "shot_file.png"),
    ];

    let rewritten = rewrite_imported_issue_attachments_markdown(&prompt, &imported);

    assert_eq!(
        rewritten,
        "See [doc.pdf](.vibe-attachments/doc_file.pdf) and ![shot.png](.vibe-attachments/shot_file.png). https://example.com"
    );
}

#[test]
fn nothing_imported_nothing_changed() {
    let prompt = format!("\u{e9} [a](attachment://{})", Uuid::new_v4());
    assert_eq!(rewrite_imported_issue_attachments_markdown(&prompt, &vec![]), prompt);
}

#[test]
fn references_are_found_in_any_form_of_their_identifier() {
    let id = Uuid::new_v4();
    let imported = vec![imported_file(id, "a.txt", "x_a.txt")];
    let simple = format!("[a](attachment://{})", id.simple());
    assert_eq!(
        rewrite_imported_issue_attachments_markdown(&simple, &imported),
        "[a](.vibe-attachments/x_a.txt)"
    );
    for broken in [
        format!("[a](attachment://{id}"),
        format!("[a(attachment://{id})"),
        format!("[a] (attachment://{id})"),
        "[a](attachment://nonsense)".to_string(),
        format!("[a\\](attachment://{id})"),
    ] {
        assert_eq!(
            rewrite_imported_issue_attachments_markdown(&broken, &imported),
            broken
        );
    }
}

#[test]
fn the_last_import_of_an_attachment_wins() {
    let id = Uuid::new_v4();
    let imported = vec![imported_file(id, "a", "first"), imported_file(id, "a", "second")];
    assert_eq!(
        rewrite_imported_issue_attachments_markdown(&format!("[a](attachment://{id})"), &imported),
        "[a](.vibe-attachments/second)"
    );
}

#[test]
fn labels_are_escaped() {
    assert_eq!(escape_markdown_label("a[b]\\c"), "a\\[b\\]\\\\c");
    let file = imported_file(Uuid::new_v4(), "na[me", "p");
    assert_eq!(
        build_workspace_attachment_markdown(&file, "  ", true),
        "![na\\[me](.vibe-attachments/p)"
    );
    // A label that was escaped already is escaped again.
    let id = Uuid::new_v4();
    let imported = vec![imported_file(id, "n", "p")];
    assert_eq!(
        rewrite_imported_issue_attachments_markdown(
            &format!("[x\\]y](attachment://{id})"),
            &imported
        ),
        "[x\\\\\\]y](.vibe-attachments/p)"
    );
}

#[test]
fn unescaped_characters_are_found() {
    assert_eq!(find_unescaped_char("ab]c]", ']'), Some(2));
    assert_eq!(find_unescaped_char("a\\]b]", ']'), Some(4));
    assert_eq!(find_unescaped_char("a\\\\]", ']'), Some(3));
    assert_eq!(find_unescaped_char("a\\]", ']'), None);
    // Bytes are counted, and an escaped character may take several.
    assert_eq!(find_unescaped_char("\u{e9}]", ']'), Some(2));
    assert_eq!(find_unescaped_char("\\\u{1f600}x\u{20ac}]", ']'), Some(9));
}

#[test]
fn a_label_ends_where_it_was_closed() {
    for label in ["", "plain", "a]b\\[", "\u{e9}]\u{1f600}\\", "\\\\"] {
        let escaped = escape_markdown_label(label);
        let text = format!("{escaped}]](rest]");
        assert_eq!(find_unescaped_char(&text, ']'), Some(escaped.len()));
    }
}

#[test]
fn prompts_are_trimmed() {
    assert_eq!(normalize_prompt("  hi \n"), Some("hi".to_string()));
    assert_eq!(normalize_prompt(" \u{3000}\t"), None);
}
