use archmind_core::docs::pdf::{layout, PdfBlock};
use archmind_core::docs::{html, markdown, wiki};
use archmind_core::model::{Dependency, Endpoint, Project};

fn shop() -> Project {
    let mut p = Project::new("/p", "shop");
    p.stats.files = 2;
    p.stats.lines_of_code = 10;
    p.stats.by_extension = vec![("__git_remote".to_string(), 0), ("cs".to_string(), 2)];
    p.endpoints.push(Endpoint {
        id: "ep:GET /orders".into(),
        method: "GET".into(),
        path: "/orders".into(),
        operation_id: Some("listOrders".into()),
        summary: None,
        source: "api.yaml".into(),
    });
    p.dependencies.push(Dependency {
        name: "svelte".into(),
        version: Some("^5".into()),
        ecosystem: "npm".into(),
        declared_in: "package.json".into(),
    });
    p
}

const SHOP_MD: &str = "# shop\n\n_Documentazione generata automaticamente da ArchMind._\n\n- **Radice**: `/p`\n- **File analizzati**: 2\n- **Righe di codice**: 10\n\n## Composizione\n\n| Estensione | File |\n|---|---|\n| `cs` | 2 |\n\n## API (1 endpoint)\n\n| Metodo | Path | Operazione |\n|---|---|---|\n| `GET` | `/orders` | listOrders |\n\n## Dipendenze (1)\n\n| Pacchetto | Versione | Ecosistema |\n|---|---|---|\n| svelte | ^5 | npm |\n\n";

#[test]
fn markdown_of_a_project() {
    assert_eq!(markdown::render(&shop()), SHOP_MD);
}

#[test]
fn markdown_of_an_empty_project() {
    let p = Project::new("/r", "empty");
    assert_eq!(
        markdown::render(&p),
        "# empty\n\n_Documentazione generata automaticamente da ArchMind._\n\n- **Radice**: `/r`\n- **File analizzati**: 0\n- **Righe di codice**: 0\n\n"
    );
}

#[test]
fn committed_docs_are_checked_trimmed() {
    assert!(markdown::is_current(SHOP_MD, SHOP_MD));
    assert!(markdown::is_current("# a\n", "  # a"));
    assert!(!markdown::is_current("# a", "# b"));
    assert_eq!(markdown::join(&vec![]), "-");
    assert_eq!(markdown::join(&vec!["a".to_string(), "b".to_string()]), "a, b");
}

#[test]
fn wiki_embeds_known_diagrams() {
    let w = wiki::render(&shop());
    assert!(w.starts_with(SHOP_MD));
    let rest = &w[SHOP_MD.len()..];
    assert!(rest.starts_with("\n## Diagrammi\n\n### Flusso applicativo\n\n```mermaid\ngraph LR\n```\n\n### Componenti e servizi\n\n```mermaid\ngraph TD\n  empty[\"Nessun servizio rilevato\"]\n```\n\n### Dipendenze\n\n"));
    assert!(rest.ends_with("### Class diagram\n\n```mermaid\nclassDiagram\n  class NessunaClasse\n```\n\n"));
    assert_eq!(wiki::trim_end_text("a b \n\t"), "a b");
}

#[test]
fn html_page_around_the_rendered_markdown() {
    let page = html::page("a<b & c>", "<p>x</p>");
    assert!(page.starts_with("<!DOCTYPE html>\n<html lang=\"it\">\n<head>\n<meta charset=\"UTF-8\">\n<meta name=\"viewport\""));
    assert!(page.contains("<title>a&lt;b &amp; c&gt; — ArchMind</title>\n<style>"));
    assert!(page.ends_with("</style>\n</head>\n<body>\n<p>x</p>\n</body>\n</html>\n"));
    let full = html::render(&shop());
    assert!(full.contains("<h1>shop</h1>"));
    assert!(full.contains("<table>"));
    assert!(!full.contains("# shop"));
}

#[test]
fn pdf_layout_blocks() {
    let blocks = layout(&shop());
    match &blocks[0] {
        PdfBlock::Heading { text, size } => {
            assert_eq!(text, "shop");
            assert_eq!(*size, 20);
        },
        _ => panic!("expected a heading"),
    }
    assert!(matches!(blocks[1], PdfBlock::Break));
    let paragraphs: Vec<String> = blocks
        .iter()
        .filter_map(|b| match b {
            PdfBlock::Paragraph(t) => Some(t.clone()),
            _ => None,
        })
        .collect();
    assert!(paragraphs.contains(&" Estensione     File ".to_string()));
    assert!(!paragraphs.iter().any(|p| p.contains("---")));
    assert!(paragraphs.contains(&" `GET`     `/orders`     listOrders ".to_string()));
    let big: Vec<u8> = blocks
        .iter()
        .filter_map(|b| match b {
            PdfBlock::Heading { size, .. } => Some(*size),
            _ => None,
        })
        .collect();
    assert_eq!(big, vec![20, 14, 14, 14]);
}
