use spectrum_card::card::App;
use spectrum_card::render::{cell_text, render_page, render_rows};
use spectrum_card::spectrum::{Quadrant, Spectrum};

fn expected_page(name: &str, pronouns: &str, spectrums: Vec<(&String, String)>) -> String {
    let mut rows = String::new();

        for (name, spectrum) in spectrums {
            rows.push_str(&format!(
                r"
                <tr>
                    <td>{name}</td>
                    <td>{spectrum}</td>
                </tr>
                "
            ));
        }

        let html = format!(
            r#"
            <html>
                <head>
                    <style>
                        body {{
                            font-family: "DejaVu Sans";
                            font-size: 8pt;
                            padding: 5mm;
                        }}

                        table {{
                            width: 100%;
                            border-collapse: collapse;
                        }}

                        th {{
                            font-family: "DejaVu Sans Bold";
                            font-size: 12pt;
                            text-align: left;
                            padding-bottom: 2mm;
                        }}

                        td {{
                            padding-top: 1.0mm;
                            padding-bottom: 1.0mm;
                            text-align: left;
                        }}

                        th:first-child,
                        td:first-child {{
                            width: 65%;
                        }}

                        th:last-child,
                        td:last-child {{
                            width: 35%;
                        }}
                    </style>
                </head>

                <body>
                    <table>
                        <thead>
                            <tr>
                                <th>{name} ({pronouns})</th>
                            </tr>
                        </thead>

                        <tbody>
                            {rows}
                        </tbody>
                    </table>
                </body>
            </html>
            "#
        );

    html
}

fn sample_app() -> App {
    let mut app = App::default();
    app.name = "Alex".to_string();
    app.pronouns = "she/her".to_string();
    app.set_value(0, Spectrum::Quadrants(Quadrant::Q1));
    app.set_value(1, Spectrum::Number(0.3f32.to_bits()));
    app.set_value(4, Spectrum::Quadrants(Quadrant::M));
    app
}

fn number_texts(app: &App) -> Vec<String> {
    app.spectrums
        .iter()
        .map(|(_, value)| match value {
            Spectrum::Number(bits) => f32::from_bits(*bits).to_string(),
            _ => String::new(),
        })
        .collect()
}

#[test]
fn cell_texts() {
    assert_eq!(cell_text(&Spectrum::Quadrants(Quadrant::Q4), "ignored"), "Q4");
    assert_eq!(cell_text(&Spectrum::Quadrants(Quadrant::M), ""), "M");
    assert_eq!(cell_text(&Spectrum::Unknown, "ignored"), "U");
    assert_eq!(cell_text(&Spectrum::Number(0), "0.5"), "0.5");
}

#[test]
fn rows_for_two_cells() {
    let cells = vec![
        ("First".to_string(), "Q1".to_string()),
        ("Second".to_string(), "U".to_string()),
    ];
    let rows = render_rows(&cells);
    assert_eq!(
        rows,
        "\n                <tr>\n                    <td>First</td>\n                    <td>Q1</td>\n                </tr>\n                \n                <tr>\n                    <td>Second</td>\n                    <td>U</td>\n                </tr>\n                "
    );
}

#[test]
fn no_rows_for_no_cells() {
    assert_eq!(render_rows(&Vec::new()), "");
}

#[test]
fn page_has_heading_and_rows() {
    let page = render_page("Kim", "he/him", "ROWS");
    assert!(page.contains("<th>Kim (he/him)</th>"));
    assert!(page.contains("<tbody>\n                            ROWS\n                        </tbody>"));
    assert!(page.starts_with("\n            <html>"));
}

#[test]
fn card_html_matches_layout() {
    let app = sample_app();
    let texts = number_texts(&app);
    let page = app.card_html(&texts);

    let labels: Vec<(&String, String)> = app
        .spectrums
        .iter()
        .map(|(name, spectrum)| {
            let text = match spectrum {
                Spectrum::Quadrants(quadrant) => quadrant.label(),
                Spectrum::Unknown => String::from("U"),
                Spectrum::Number(bits) => f32::from_bits(*bits).to_string(),
            };
            (name, text)
        })
        .collect();
    assert_eq!(page, expected_page(&app.name, &app.pronouns, labels));
    assert!(page.contains("<td>Spectrum2</td>\n                    <td>0.3</td>"));
    assert!(page.contains("<td>Spectrum1</td>\n                    <td>Q1</td>"));
}

#[test]
fn card_cells_follow_spectrums() {
    let app = sample_app();
    let cells = app.card_cells(&number_texts(&app));
    assert_eq!(cells.len(), 12);
    assert_eq!(cells[0], ("Spectrum1".to_string(), "Q1".to_string()));
    assert_eq!(cells[1], ("Spectrum2".to_string(), "0.3".to_string()));
    assert_eq!(cells[2], ("Spectrum3".to_string(), "U".to_string()));
    assert_eq!(cells[4], ("Spectrum5".to_string(), "M".to_string()));
}

#[test]
fn rows_of_joined_cells_are_joined_rows() {
    let first = vec![("A".to_string(), "Q1".to_string())];
    let second = vec![("B".to_string(), "U".to_string()), ("C".to_string(), "0.5".to_string())];
    let mut both = first.clone();
    both.extend(second.clone());
    assert_eq!(render_rows(&both), render_rows(&first) + &render_rows(&second));
}
