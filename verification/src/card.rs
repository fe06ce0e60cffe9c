//! The Agent Card fields that the rules of this library read.

use vstd::prelude::*;

use crate::json::{as_items, get, member_text};
#[allow(unused_imports)]
use crate::json::{as_text, items_member, json_of, jsons, text_member_or_empty, text_of, JsonView};
#[allow(unused_imports)]
use crate::text::texts;

verus! {

#[derive(Clone, Debug)]
pub struct AgentInterface {
    pub url: String,
    pub protocol_binding: String,
    pub protocol_version: String,
}

#[derive(Clone, Debug)]
pub struct AgentSkill {
    pub id: String,
    pub name: String,
    pub description: String,
    pub tags: Vec<String>,
}

/// An Agent Card: what the rules read of it, and the whole document.
#[derive(Clone, Debug)]
pub struct AgentCard {
    pub name: String,
    pub description: String,
    pub version: String,
    pub supported_interfaces: Vec<AgentInterface>,
    pub default_input_modes: Vec<String>,
    pub default_output_modes: Vec<String>,
    pub skills: Vec<AgentSkill>,
    pub document: serde_json::Value,
}

#[verifier::ext_equal]
pub struct InterfaceView {
    pub url: Seq<char>,
    pub protocol_binding: Seq<char>,
    pub protocol_version: Seq<char>,
}

#[verifier::ext_equal]
pub struct SkillView {
    pub id: Seq<char>,
    pub name: Seq<char>,
    pub description: Seq<char>,
    pub tags: Seq<Seq<char>>,
}

#[verifier::ext_equal]
pub struct CardView {
    pub name: Seq<char>,
    pub description: Seq<char>,
    pub version: Seq<char>,
    pub supported_interfaces: Seq<InterfaceView>,
    pub default_input_modes: Seq<Seq<char>>,
    pub default_output_modes: Seq<Seq<char>>,
    pub skills: Seq<SkillView>,
    pub document: JsonView,
}

impl View for AgentInterface {
    type V = InterfaceView;

    open spec fn view(&self) -> InterfaceView {
        InterfaceView {
            url: self.url@,
            protocol_binding: self.protocol_binding@,
            protocol_version: self.protocol_version@,
        }
    }
}

impl View for AgentSkill {
    type V = SkillView;

    open spec fn view(&self) -> SkillView {
        SkillView {
            id: self.id@,
            name: self.name@,
            description: self.description@,
            tags: texts(self.tags@),
        }
    }
}

impl View for AgentCard {
    type V = CardView;

    open spec fn view(&self) -> CardView {
        CardView {
            name: self.name@,
            description: self.description@,
            version: self.version@,
            supported_interfaces: self.supported_interfaces@.map_values(
                |interface: AgentInterface| interface@,
            ),
            default_input_modes: texts(self.default_input_modes@),
            default_output_modes: texts(self.default_output_modes@),
            skills: self.skills@.map_values(|skill: AgentSkill| skill@),
            document: json_of(self.document),
        }
    }
}

/// The texts of an array; a value that is no text counts as no text.
pub open spec fn item_texts(items: Seq<JsonView>) -> Seq<Seq<char>> {
    items.map_values(
        |item: JsonView|
            match text_of(item) {
                Some(text) => text,
                None => seq![],
            },
    )
}

pub open spec fn interface_in(document: JsonView) -> InterfaceView {
    InterfaceView {
        url: text_member_or_empty(document, "url"@),
        protocol_binding: text_member_or_empty(document, "protocolBinding"@),
        protocol_version: text_member_or_empty(document, "protocolVersion"@),
    }
}

pub open spec fn skill_in(document: JsonView) -> SkillView {
    SkillView {
        id: text_member_or_empty(document, "id"@),
        name: text_member_or_empty(document, "name"@),
        description: text_member_or_empty(document, "description"@),
        tags: item_texts(items_member(document, "tags"@)),
    }
}

/// The card that a card document describes. A member that the document leaves
/// out counts as no text or as an empty list.
pub open spec fn card_in(document: JsonView) -> CardView {
    CardView {
        name: text_member_or_empty(document, "name"@),
        description: text_member_or_empty(document, "description"@),
        version: text_member_or_empty(document, "version"@),
        supported_interfaces: items_member(document, "supportedInterfaces"@).map_values(
            |item: JsonView| interface_in(item),
        ),
        default_input_modes: item_texts(items_member(document, "defaultInputModes"@)),
        default_output_modes: item_texts(items_member(document, "defaultOutputModes"@)),
        skills: items_member(document, "skills"@).map_values(|item: JsonView| skill_in(item)),
        document: document,
    }
}

fn text_list(document: &serde_json::Value, name: &str) -> (list: Vec<String>)
    ensures
        texts(list@) == item_texts(items_member(json_of(*document), name@)),
{
    let mut list: Vec<String> = Vec::new();
    if let Some(member) = get(document, name) {
        if let Some(items) = as_items(member) {
            let mut i: usize = 0;
            while i < items.len()
                invariant
                    i <= items@.len(),
                    list@.len() == i,
                    forall|j: int|
                        0 <= j < i ==> (#[trigger] list@[j])@ == item_texts(jsons(items@))[j],
                decreases items@.len() - i,
            {
                let text = match as_text(&items[i]) {
                    Some(text) => text.to_string(),
                    None => String::new(),
                };
                assert(jsons(items@)[i as int] == json_of(items@[i as int]));
                list.push(text);
                i += 1;
            }
            assert(texts(list@) =~= item_texts(jsons(items@)));
            return list;
        }
    }
    assert(texts(list@) =~= item_texts(items_member(json_of(*document), name@)));
    list
}

fn interfaces(document: &serde_json::Value) -> (list: Vec<AgentInterface>)
    ensures
        list@.map_values(|interface: AgentInterface| interface@) == card_in(
            json_of(*document),
        ).supported_interfaces,
{
    let mut list: Vec<AgentInterface> = Vec::new();
    if let Some(member) = get(document, "supportedInterfaces") {
        if let Some(items) = as_items(member) {
            let mut i: usize = 0;
            while i < items.len()
                invariant
                    i <= items@.len(),
                    list@.len() == i,
                    forall|j: int|
                        0 <= j < i ==> (#[trigger] list@[j])@ == interface_in(json_of(items@[j])),
                decreases items@.len() - i,
            {
                list.push(
                    AgentInterface {
                        url: member_text(&items[i], "url"),
                        protocol_binding: member_text(&items[i], "protocolBinding"),
                        protocol_version: member_text(&items[i], "protocolVersion"),
                    },
                );
                i += 1;
            }
            assert(list@.map_values(|interface: AgentInterface| interface@) =~= card_in(
                json_of(*document),
            ).supported_interfaces);
            return list;
        }
    }
    assert(list@.map_values(|interface: AgentInterface| interface@) =~= card_in(
        json_of(*document),
    ).supported_interfaces);
    list
}

fn skills(document: &serde_json::Value) -> (list: Vec<AgentSkill>)
    ensures
        list@.map_values(|skill: AgentSkill| skill@) == card_in(json_of(*document)).skills,
{
    let mut list: Vec<AgentSkill> = Vec::new();
    if let Some(member) = get(document, "skills") {
        if let Some(items) = as_items(member) {
            let mut i: usize = 0;
            while i < items.len()
                invariant
                    i <= items@.len(),
                    list@.len() == i,
                    forall|j: int|
                        0 <= j < i ==> (#[trigger] list@[j])@ == skill_in(json_of(items@[j])),
                decreases items@.len() - i,
            {
                list.push(
                    AgentSkill {
                        id: member_text(&items[i], "id"),
                        name: member_text(&items[i], "name"),
                        description: member_text(&items[i], "description"),
                        tags: text_list(&items[i], "tags"),
                    },
                );
                i += 1;
            }
            assert(list@.map_values(|skill: AgentSkill| skill@) =~= card_in(
                json_of(*document),
            ).skills);
            return list;
        }
    }
    assert(list@.map_values(|skill: AgentSkill| skill@) =~= card_in(json_of(*document)).skills);
    list
}

impl AgentCard {
    /// Reads a card out of its document.
    pub fn from_document(document: serde_json::Value) -> (card: Self)
        ensures
            card@ == card_in(json_of(document)),
    {
        AgentCard {
            name: member_text(&document, "name"),
            description: member_text(&document, "description"),
            version: member_text(&document, "version"),
            supported_interfaces: interfaces(&document),
            default_input_modes: text_list(&document, "defaultInputModes"),
            default_output_modes: text_list(&document, "defaultOutputModes"),
            skills: skills(&document),
            document: document,
        }
    }
}

/// A card has what its document says under each name: texts, interfaces and skills,
/// one for one and in order. It keeps the document.
pub proof fn law_card_is_the_documents(document: serde_json::Value, card: AgentCard)
    requires
        call_ensures(AgentCard::from_document, (document,), card),
    ensures
        json_of(card.document) == json_of(document),
        card.name@ == text_member_or_empty(json_of(document), "name"@),
        card.description@ == text_member_or_empty(json_of(document), "description"@),
        card.version@ == text_member_or_empty(json_of(document), "version"@),
        ({
            let interfaces = items_member(json_of(document), "supportedInterfaces"@);
            &&& card.supported_interfaces@.len() == interfaces.len()
            &&& forall|i: int|
                #![trigger card.supported_interfaces@[i]]
                0 <= i < interfaces.len() ==> {
                    let read = card.supported_interfaces@[i];
                    &&& read.url@ == text_member_or_empty(interfaces[i], "url"@)
                    &&& read.protocol_binding@ == text_member_or_empty(
                        interfaces[i],
                        "protocolBinding"@,
                    )
                    &&& read.protocol_version@ == text_member_or_empty(
                        interfaces[i],
                        "protocolVersion"@,
                    )
                }
        }),
        ({
            let skills = items_member(json_of(document), "skills"@);
            &&& card.skills@.len() == skills.len()
            &&& forall|i: int|
                #![trigger card.skills@[i]]
                0 <= i < skills.len() ==> {
                    let read = card.skills@[i];
                    &&& read.id@ == text_member_or_empty(skills[i], "id"@)
                    &&& read.name@ == text_member_or_empty(skills[i], "name"@)
                    &&& read.description@ == text_member_or_empty(skills[i], "description"@)
                    &&& same_texts(read.tags@, items_member(skills[i], "tags"@))
                }
        }),
        same_texts(
            card.default_input_modes@,
            items_member(json_of(document), "defaultInputModes"@),
        ),
        same_texts(
            card.default_output_modes@,
            items_member(json_of(document), "defaultOutputModes"@),
        ),
{
    let view = card@;
    let made = card_in(json_of(document));
    let interfaces = items_member(json_of(document), "supportedInterfaces"@);
    let skills = items_member(json_of(document), "skills"@);
    assert(view.supported_interfaces == made.supported_interfaces);
    assert(view.supported_interfaces.len() == card.supported_interfaces@.len());
    assert(view.name == made.name);
    assert forall|i: int|
        #![trigger card.supported_interfaces@[i]]
        0 <= i < interfaces.len() implies card.supported_interfaces@[i]@ == interface_in(
        interfaces[i],
    ) by {
        assert(view.supported_interfaces[i] == card.supported_interfaces@[i]@);
        assert(made.supported_interfaces[i] == interface_in(interfaces[i]));
    }
    assert(view.skills == made.skills);
    assert(view.skills.len() == card.skills@.len());
    assert forall|i: int| #![trigger card.skills@[i]] 0 <= i < skills.len() implies card.skills@[i]@
        == skill_in(skills[i]) && same_texts(
        card.skills@[i].tags@,
        items_member(skills[i], "tags"@),
    ) by {
        assert(view.skills[i] == card.skills@[i]@);
        assert(made.skills[i] == skill_in(skills[i]));
        assert(card.skills@[i]@.tags == texts(card.skills@[i].tags@));
        lemma_same_texts(card.skills@[i].tags@, items_member(skills[i], "tags"@));
    }
    lemma_same_texts(
        card.default_input_modes@,
        items_member(json_of(document), "defaultInputModes"@),
    );
    lemma_same_texts(
        card.default_output_modes@,
        items_member(json_of(document), "defaultOutputModes"@),
    );
}

/// The texts are those of the items, one for one.
pub open spec fn same_texts(list: Seq<String>, items: Seq<JsonView>) -> bool {
    &&& list.len() == items.len()
    &&& forall|i: int|
        #![trigger list[i]]
        0 <= i < items.len() ==> match items[i] {
            JsonView::Text(text) => list[i]@ == text,
            _ => list[i]@.len() == 0,
        }
}

proof fn lemma_same_texts(list: Seq<String>, items: Seq<JsonView>)
    requires
        texts(list) == item_texts(items),
    ensures
        same_texts(list, items),
{
    assert(texts(list).len() == list.len());
    assert(item_texts(items).len() == items.len());
    assert forall|i: int| #![trigger list[i]] 0 <= i < items.len() implies match items[i] {
        JsonView::Text(text) => list[i]@ == text,
        _ => list[i]@.len() == 0,
    } by {
        assert(texts(list)[i] == list[i]@);
        assert(item_texts(items)[i] == texts(list)[i]);
    }
}

} // verus!
