//! The narrative placeholders around the engine: the list of available lore
//! settings, their titles, and the fixed opening prompt of the story loop.

use vstd::prelude::*;
use vstd::string::*;

verus! {

/// One available lore setting.
pub struct Lore {
    pub title: String,
}

/// One step of the story: a narrative text and the action it asks for.
pub struct Prompt {
    pub text: String,
    pub action: Action,
}

/// A question put to the player and the choices offered for it.
pub struct Action {
    pub question: String,
    pub choices: Vec<String>,
}

/// The titles of the lore settings that are available, in their fixed order.
pub open spec fn spec_lore_titles() -> Seq<Seq<char>> {
    seq!["warhammer 40k"@, "loup garou"@, "esa magia"@]
}

/// The lore settings that are available.
pub fn get_all_availables_lore() -> (r: Vec<Lore>)
    ensures
        r@.len() == spec_lore_titles().len(),
        forall|i: int| 0 <= i < r@.len() ==> #[trigger] r@[i].title@ == spec_lore_titles()[i],
{
    let mut lores: Vec<Lore> = Vec::new();
    lores.push(Lore { title: String::from_str("warhammer 40k") });
    lores.push(Lore { title: String::from_str("loup garou") });
    lores.push(Lore { title: String::from_str("esa magia") });
    lores
}

/// The titles of the available lore settings, in the same order.
pub fn get_lore_titles() -> (r: Vec<String>)
    ensures
        r.deep_view() == spec_lore_titles(),
{
    let lores = get_all_availables_lore();
    let mut titles: Vec<String> = Vec::new();
    let mut i: usize = 0;
    while i < lores.len()
        invariant
            lores@.len() == spec_lore_titles().len(),
            forall|j: int|
                0 <= j < lores@.len() ==> #[trigger] lores@[j].title@ == spec_lore_titles()[j],
            i <= lores@.len(),
            titles@.len() == i,
            forall|j: int| 0 <= j < i ==> #[trigger] titles@[j]@ == spec_lore_titles()[j],
        decreases lores@.len() - i,
    {
        titles.push(lores[i].title.clone());
        i += 1;
    }
    proof {
        assert(titles.deep_view() =~= spec_lore_titles());
    }
    titles
}

/// The fixed opening prompt of the story loop.
pub fn generate() -> (p: Prompt)
    ensures
        p.text@ == "La brume s’élève lentement au-dessus des marais de Drathor, dissimulant les silhouettes des ruines oubliées. Vous avancez prudemment, l’épée encore humide du sang du dernier gobelin. Dans votre sac, la gemme écarlate pulse faiblement, comme un cœur impatient. Au loin, une lumière bleue traverse le brouillard : la tour du mage déchu, peut-être… ou un piège ancien. Le vent murmure des mots que vous ne comprenez pas encore."@,
        p.action.question@ == "Que décidez-vous de faire ?"@,
        p.action.choices@.len() == 4,
        p.action.choices@[0]@ == "Vous approcher de la lumière, prêt à tout affronter."@,
        p.action.choices@[1]@ == "Explorer les ruines à la recherche d’indices."@,
        p.action.choices@[2]@ == "Monter un camp et attendre le lever du jour."@,
        p.action.choices@[3]@ == "Rebrousser chemin vers le village pour demander de l’aide."@,
{
    let mut choices: Vec<String> = Vec::new();
    choices.push(String::from_str("Vous approcher de la lumière, prêt à tout affronter."));
    choices.push(String::from_str("Explorer les ruines à la recherche d’indices."));
    choices.push(String::from_str("Monter un camp et attendre le lever du jour."));
    choices.push(String::from_str("Rebrousser chemin vers le village pour demander de l’aide."));
    Prompt {
        text: String::from_str(
            "La brume s’élève lentement au-dessus des marais de Drathor, dissimulant les silhouettes des ruines oubliées. Vous avancez prudemment, l’épée encore humide du sang du dernier gobelin. Dans votre sac, la gemme écarlate pulse faiblement, comme un cœur impatient. Au loin, une lumière bleue traverse le brouillard : la tour du mage déchu, peut-être… ou un piège ancien. Le vent murmure des mots que vous ne comprenez pas encore.",
        ),
        action: Action { question: String::from_str("Que décidez-vous de faire ?"), choices },
    }
}

} // verus!
