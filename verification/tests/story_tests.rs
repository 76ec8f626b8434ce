//! Tests of the narrative placeholders around the engine.

use lore_rag::story::{generate, get_all_availables_lore, get_lore_titles};

#[test]
fn three_lore_settings_are_available() {
    let lores = get_all_availables_lore();
    assert_eq!(lores.len(), 3);
    assert_eq!(lores[0].title, "warhammer 40k");
    assert_eq!(lores[1].title, "loup garou");
    assert_eq!(lores[2].title, "esa magia");
}

#[test]
fn titles_list_the_settings_in_order() {
    assert_eq!(
        get_lore_titles(),
        vec!["warhammer 40k".to_string(), "loup garou".to_string(), "esa magia".to_string()]
    );
}

#[test]
fn opening_prompt_offers_four_choices() {
    let prompt = generate();
    assert!(prompt.text.starts_with("La brume s’élève lentement"));
    assert_eq!(prompt.action.question, "Que décidez-vous de faire ?");
    assert_eq!(prompt.action.choices.len(), 4);
    assert_eq!(
        prompt.action.choices[0],
        "Vous approcher de la lumière, prêt à tout affronter."
    );
}
