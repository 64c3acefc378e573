//! Token metadata as the registry reports it: attributes, media and a name.

use crate::decimal::{
    bounded_value, decimal_text, format_decimal, lemma_read_back, parse_bounded,
};
use crate::seqs::{first_index, lemma_first_index, lemma_first_index_is};
use vstd::prelude::*;
use vstd::string::*;

verus! {

/// The trait that marks a token as a possible leader.
pub open spec fn alpha_name() -> Seq<char> {
    "Alpha"@
}

/// The trait that holds a token's experience.
pub open spec fn xp_name() -> Seq<char> {
    "XP"@
}

/// The trait that holds a token's level.
pub open spec fn lvl_name() -> Seq<char> {
    "LVL"@
}

/// The trait that holds the number of members of a leader's pack.
pub open spec fn pack_name() -> Seq<char> {
    "Pack"@
}

/// The trait that holds the score of a leader's pack.
pub open spec fn pack_rank_name() -> Seq<char> {
    "Pack Rank"@
}

/// One attribute of a token.
#[derive(Debug, PartialEq, Eq)]
pub struct Trait {
    /// How the attribute is to be displayed.
    pub display_type: Option<String>,
    /// The name of the attribute.
    pub trait_type: Option<String>,
    /// Its value.
    pub value: String,
    /// The largest value, for numeric attributes.
    pub max_value: Option<String>,
}

/// What a [`Trait`] holds.
#[verifier::ext_equal]
pub struct TraitModel {
    pub display_type: Option<Seq<char>>,
    pub trait_type: Option<Seq<char>>,
    pub value: Seq<char>,
    pub max_value: Option<Seq<char>>,
}

impl View for Trait {
    type V = TraitModel;

    open spec fn view(&self) -> TraitModel {
        TraitModel {
            display_type: self.display_type.deep_view(),
            trait_type: self.trait_type.deep_view(),
            value: self.value@,
            max_value: self.max_value.deep_view(),
        }
    }
}

impl DeepView for Trait {
    type V = TraitModel;

    open spec fn deep_view(&self) -> TraitModel {
        self@
    }
}

impl Clone for Trait {
    fn clone(&self) -> (r: Self)
        ensures
            r == *self,
    {
        Trait {
            display_type: self.display_type.clone(),
            trait_type: self.trait_type.clone(),
            value: self.value.clone(),
            max_value: self.max_value.clone(),
        }
    }
}

/// How to open a media file.
#[derive(Debug, PartialEq, Eq)]
pub struct Authentication {
    /// A decryption key or a password.
    pub key: Option<String>,
    /// A user name.
    pub user: Option<String>,
}

/// What an [`Authentication`] holds.
#[verifier::ext_equal]
pub struct AuthenticationModel {
    pub key: Option<Seq<char>>,
    pub user: Option<Seq<char>>,
}

impl View for Authentication {
    type V = AuthenticationModel;

    open spec fn view(&self) -> AuthenticationModel {
        AuthenticationModel { key: self.key.deep_view(), user: self.user.deep_view() }
    }
}

impl DeepView for Authentication {
    type V = AuthenticationModel;

    open spec fn deep_view(&self) -> AuthenticationModel {
        self@
    }
}

impl Clone for Authentication {
    fn clone(&self) -> (r: Self)
        ensures
            r == *self,
    {
        Authentication { key: self.key.clone(), user: self.user.clone() }
    }
}

/// One media file of a token.
#[derive(Debug, PartialEq, Eq)]
pub struct MediaFile {
    /// The kind of file.
    pub file_type: Option<String>,
    /// The file's extension.
    pub extension: Option<String>,
    /// How to open the file.
    pub authentication: Option<Authentication>,
    /// Where the file is.
    pub url: String,
}

/// What a [`MediaFile`] holds.
#[verifier::ext_equal]
pub struct MediaFileModel {
    pub file_type: Option<Seq<char>>,
    pub extension: Option<Seq<char>>,
    pub authentication: Option<AuthenticationModel>,
    pub url: Seq<char>,
}

impl View for MediaFile {
    type V = MediaFileModel;

    open spec fn view(&self) -> MediaFileModel {
        MediaFileModel {
            file_type: self.file_type.deep_view(),
            extension: self.extension.deep_view(),
            authentication: self.authentication.deep_view(),
            url: self.url@,
        }
    }
}

impl DeepView for MediaFile {
    type V = MediaFileModel;

    open spec fn deep_view(&self) -> MediaFileModel {
        self@
    }
}

impl Clone for MediaFile {
    fn clone(&self) -> (r: Self)
        ensures
            r == *self,
    {
        MediaFile {
            file_type: self.file_type.clone(),
            extension: self.extension.clone(),
            authentication: self.authentication.clone(),
            url: self.url.clone(),
        }
    }
}

/// One side, public or private, of a token's metadata.
#[derive(Debug, PartialEq, Eq)]
pub struct Metadata {
    /// The display name.
    pub name: Option<String>,
    /// The attributes, in the registry's order.
    pub attributes: Vec<Trait>,
    /// The media files, in the registry's order.
    pub media: Vec<MediaFile>,
}

/// What a [`Metadata`] holds.
#[verifier::ext_equal]
pub struct MetadataModel {
    pub name: Option<Seq<char>>,
    pub attributes: Seq<TraitModel>,
    pub media: Seq<MediaFileModel>,
}

impl View for Metadata {
    type V = MetadataModel;

    open spec fn view(&self) -> MetadataModel {
        MetadataModel {
            name: self.name.deep_view(),
            attributes: self.attributes.deep_view(),
            media: self.media.deep_view(),
        }
    }
}

impl DeepView for Metadata {
    type V = MetadataModel;

    open spec fn deep_view(&self) -> MetadataModel {
        self@
    }
}

impl Clone for Metadata {
    fn clone(&self) -> (r: Self)
        ensures
            r@ == self@,
    {
        let attributes = self.attributes.clone();
        let media = self.media.clone();
        assert(attributes.deep_view() =~= self.attributes.deep_view());
        assert(media.deep_view() =~= self.media.deep_view());
        Metadata { name: self.name.clone(), attributes, media }
    }
}

/// What the registry reports of one token. A side that the registry does not
/// show is absent.
#[derive(Debug, PartialEq, Eq)]
pub struct NftDossier {
    /// The public side.
    pub public_metadata: Option<Metadata>,
    /// The private side.
    pub private_metadata: Option<Metadata>,
}

/// What an [`NftDossier`] holds.
#[verifier::ext_equal]
pub struct NftDossierModel {
    pub public_metadata: Option<MetadataModel>,
    pub private_metadata: Option<MetadataModel>,
}

impl View for NftDossier {
    type V = NftDossierModel;

    open spec fn view(&self) -> NftDossierModel {
        NftDossierModel {
            public_metadata: self.public_metadata.deep_view(),
            private_metadata: self.private_metadata.deep_view(),
        }
    }
}

impl DeepView for NftDossier {
    type V = NftDossierModel;

    open spec fn deep_view(&self) -> NftDossierModel {
        self@
    }
}

impl Clone for NftDossier {
    fn clone(&self) -> (r: Self)
        ensures
            r@ == self@,
    {
        NftDossier {
            public_metadata: self.public_metadata.clone(),
            private_metadata: self.private_metadata.clone(),
        }
    }
}

/// The test whether an attribute is named `name`.
pub open spec fn named(name: Seq<char>) -> spec_fn(TraitModel) -> bool {
    |t: TraitModel| t.trait_type == Some(name)
}

/// Where the first attribute named `name` stands, or the number of
/// attributes where there is none.
pub open spec fn trait_index(attributes: Seq<TraitModel>, name: Seq<char>) -> int {
    first_index(attributes, named(name))
}

/// Whether an attribute is named `name`.
pub open spec fn has_trait(attributes: Seq<TraitModel>, name: Seq<char>) -> bool {
    trait_index(attributes, name) < attributes.len()
}

/// The number that the first attribute named `name` holds, if there is
/// such an attribute and its value is a decimal number of at most `max`.
pub open spec fn trait_number(attributes: Seq<TraitModel>, name: Seq<char>, max: nat) -> Option<nat> {
    if has_trait(attributes, name) {
        bounded_value(attributes[trait_index(attributes, name)].value, max)
    } else {
        None
    }
}

/// The attribute `t` with the value `value`.
pub open spec fn with_value(t: TraitModel, value: Seq<char>) -> TraitModel {
    TraitModel {
        display_type: t.display_type,
        trait_type: t.trait_type,
        value: value,
        max_value: t.max_value,
    }
}

/// The attributes after the first one named `name` is given the number
/// `n`; unchanged where none has that name.
pub open spec fn with_number(attributes: Seq<TraitModel>, name: Seq<char>, n: nat) -> Seq<TraitModel> {
    if has_trait(attributes, name) {
        let i = trait_index(attributes, name);
        attributes.update(i, with_value(attributes[i], decimal_text(n)))
    } else {
        attributes
    }
}

/// A plain attribute: a name and a value, without display hints.
pub open spec fn plain_trait(name: Seq<char>, value: Seq<char>) -> TraitModel {
    TraitModel { display_type: None, trait_type: Some(name), value: value, max_value: None }
}

/// The attributes with an attribute `name` of value zero added at the end,
/// unless one named `name` is there already.
pub open spec fn with_zero_default(attributes: Seq<TraitModel>, name: Seq<char>) -> Seq<TraitModel> {
    if has_trait(attributes, name) {
        attributes
    } else {
        attributes.push(plain_trait(name, decimal_text(0)))
    }
}

/// Giving an attribute a number changes no name, so every other name is
/// found where it was.
pub proof fn lemma_with_number_keeps_names(
    attributes: Seq<TraitModel>,
    name: Seq<char>,
    n: nat,
    other: Seq<char>,
)
    ensures
        with_number(attributes, name, n).len() == attributes.len(),
        trait_index(with_number(attributes, name, n), other) == trait_index(attributes, other),
        has_trait(with_number(attributes, name, n), other) == has_trait(attributes, other),
        other != name && has_trait(attributes, other) ==> with_number(attributes, name, n)[trait_index(
            attributes,
            other,
        )] == attributes[trait_index(attributes, other)],
{
    let after = with_number(attributes, name, n);
    lemma_first_index(attributes, named(name));
    lemma_first_index(attributes, named(other));
    let k = trait_index(attributes, other);
    assert forall|j: int| 0 <= j < after.len() implies (#[trigger] after[j]).trait_type
        == attributes[j].trait_type by {}
    assert forall|j: int| 0 <= j < k implies !named(other)(#[trigger] after[j]) by {
        assert(after[j].trait_type == attributes[j].trait_type);
        assert(!named(other)(attributes[j]));
    }
    if k < attributes.len() {
        assert(after[k].trait_type == attributes[k].trait_type);
    }
    lemma_first_index_is(after, named(other), k);
}

/// The five names that the contract reads are five different names.
pub proof fn lemma_names_differ()
    ensures
        alpha_name() != xp_name(),
        alpha_name() != lvl_name(),
        alpha_name() != pack_name(),
        alpha_name() != pack_rank_name(),
        xp_name() != lvl_name(),
        xp_name() != pack_name(),
        xp_name() != pack_rank_name(),
        lvl_name() != pack_name(),
        lvl_name() != pack_rank_name(),
        pack_name() != pack_rank_name(),
{
    reveal_strlit("Alpha");
    reveal_strlit("XP");
    reveal_strlit("LVL");
    reveal_strlit("Pack");
    reveal_strlit("Pack Rank");
    assert(alpha_name().len() == 5);
    assert(xp_name().len() == 2);
    assert(lvl_name().len() == 3);
    assert(pack_name().len() == 4);
    assert(pack_rank_name().len() == 9);
}

/// An attribute that was given a number holds that number.
pub proof fn lemma_number_written(attributes: Seq<TraitModel>, name: Seq<char>, n: nat, max: nat)
    requires
        has_trait(attributes, name),
        n <= max,
    ensures
        has_trait(with_number(attributes, name, n), name),
        trait_number(with_number(attributes, name, n), name, max) == Some(n),
{
    lemma_with_number_keeps_names(attributes, name, n, name);
    lemma_first_index(attributes, named(name));
    lemma_read_back(n, max);
}

/// Giving an attribute a number leaves the numbers of all others.
pub proof fn lemma_number_kept(
    attributes: Seq<TraitModel>,
    name: Seq<char>,
    n: nat,
    other: Seq<char>,
    max: nat,
)
    requires
        other != name,
    ensures
        has_trait(with_number(attributes, name, n), other) == has_trait(attributes, other),
        trait_number(with_number(attributes, name, n), other, max) == trait_number(
            attributes,
            other,
            max,
        ),
{
    lemma_with_number_keeps_names(attributes, name, n, other);
}

/// After the default the attribute is there: with its own number where it
/// was there before, with zero where it was not. Every other attribute is
/// as it was.
pub proof fn lemma_zero_default(
    attributes: Seq<TraitModel>,
    name: Seq<char>,
    other: Seq<char>,
    max: nat,
)
    ensures
        has_trait(with_zero_default(attributes, name), name),
        trait_number(with_zero_default(attributes, name), name, max) == if has_trait(
            attributes,
            name,
        ) {
            trait_number(attributes, name, max)
        } else {
            Some(0nat)
        },
        other != name ==> has_trait(with_zero_default(attributes, name), other) == has_trait(
            attributes,
            other,
        ),
        other != name ==> trait_number(with_zero_default(attributes, name), other, max)
            == trait_number(attributes, other, max),
{
    let after = with_zero_default(attributes, name);
    let n = attributes.len() as int;
    lemma_first_index(attributes, named(name));
    lemma_first_index(attributes, named(other));
    if !has_trait(attributes, name) {
        assert forall|j: int| 0 <= j < n implies !named(name)(#[trigger] after[j]) by {
            assert(after[j] == attributes[j]);
        }
        assert(named(name)(after[n]));
        lemma_first_index_is(after, named(name), n);
        lemma_read_back(0, max);
        if other != name {
            let k = trait_index(attributes, other);
            assert forall|j: int| 0 <= j < k implies !named(other)(#[trigger] after[j]) by {
                assert(after[j] == attributes[j]);
            }
            if k < n {
                assert(after[k] == attributes[k]);
                lemma_first_index_is(after, named(other), k);
            } else {
                assert(!named(other)(after[n]));
                assert forall|j: int| 0 <= j < n + 1 implies !named(other)(#[trigger] after[j]) by {
                    if j < n {
                        assert(after[j] == attributes[j]);
                    }
                }
                lemma_first_index_is(after, named(other), n + 1);
            }
        }
    }
}

/// Whether no name occurs twice among the attributes.
pub open spec fn distinct_names(attributes: Seq<TraitModel>) -> bool {
    forall|i: int, j: int|
        0 <= i < attributes.len() && 0 <= j < attributes.len() && i != j && (
        #[trigger] attributes[i]).trait_type is Some ==> attributes[i].trait_type != (
        #[trigger] attributes[j]).trait_type
}

/// Giving an attribute a number brings no name in twice.
pub proof fn lemma_with_number_keeps_distinct(attributes: Seq<TraitModel>, name: Seq<char>, n: nat)
    requires
        distinct_names(attributes),
    ensures
        distinct_names(with_number(attributes, name, n)),
{
    let after = with_number(attributes, name, n);
    lemma_first_index(attributes, named(name));
    assert forall|i: int, j: int|
        0 <= i < after.len() && 0 <= j < after.len() && i != j && (
        #[trigger] after[i]).trait_type is Some implies after[i].trait_type != (
    #[trigger] after[j]).trait_type by {
        assert(after[i].trait_type == attributes[i].trait_type);
        assert(after[j].trait_type == attributes[j].trait_type);
    }
}

/// The default brings no name in twice: it adds the name only where it is
/// not there.
pub proof fn lemma_zero_default_keeps_distinct(attributes: Seq<TraitModel>, name: Seq<char>)
    requires
        distinct_names(attributes),
    ensures
        distinct_names(with_zero_default(attributes, name)),
{
    let after = with_zero_default(attributes, name);
    let n = attributes.len() as int;
    lemma_first_index(attributes, named(name));
    if !has_trait(attributes, name) {
        assert forall|i: int, j: int|
            0 <= i < after.len() && 0 <= j < after.len() && i != j && (
            #[trigger] after[i]).trait_type is Some implies after[i].trait_type != (
        #[trigger] after[j]).trait_type by {
            if i < n && j < n {
                assert(after[i] == attributes[i]);
                assert(after[j] == attributes[j]);
            } else if i < n {
                assert(after[i] == attributes[i]);
                assert(!named(name)(attributes[i]));
            } else {
                assert(after[j] == attributes[j]);
                assert(!named(name)(attributes[j]));
            }
        }
    }
}

/// Whether two optional texts are the same.
fn same_text(a: &Option<String>, b: &Option<String>) -> (r: bool)
    ensures
        r == (a.deep_view() == b.deep_view()),
{
    match (a, b) {
        (Some(x), Some(y)) => *x == *y,
        (None, None) => true,
        _ => false,
    }
}

impl Trait {
    /// Whether the two attributes agree in name, value and display hints.
    pub fn same_as(&self, other: &Trait) -> (r: bool)
        ensures
            r == (self@ == other@),
    {
        same_text(&self.display_type, &other.display_type) && same_text(
            &self.trait_type,
            &other.trait_type,
        ) && self.value == other.value && same_text(&self.max_value, &other.max_value)
    }

    /// Whether the attribute is named `name`.
    pub fn is_named(&self, name: &String) -> (b: bool)
        ensures
            b == named(name@)(self@),
    {
        match &self.trait_type {
            Some(t) => *t == *name,
            None => false,
        }
    }

    /// A plain attribute: a name and a value, without display hints.
    pub fn plain(name: &str, value: String) -> (r: Trait)
        ensures
            r@ == plain_trait(name@, value@),
    {
        Trait {
            display_type: None,
            trait_type: Some(String::from_str(name)),
            value: value,
            max_value: None,
        }
    }
}

/// Where the first attribute named `name` stands, if there is one.
pub fn find_trait(attributes: &Vec<Trait>, name: &str) -> (r: Option<usize>)
    ensures
        match r {
            Some(i) => has_trait(attributes.deep_view(), name@) && i == trait_index(
                attributes.deep_view(),
                name@,
            ),
            None => !has_trait(attributes.deep_view(), name@),
        },
{
    let key = String::from_str(name);
    let ghost p = named(name@);
    let mut i: usize = 0;
    while i < attributes.len()
        invariant
            i <= attributes.len(),
            key@ == name@,
            p == named(name@),
            forall|j: int| 0 <= j < i ==> !p(#[trigger] attributes.deep_view()[j]),
        decreases attributes.len() - i,
    {
        assert(attributes.deep_view()[i as int] == attributes[i as int]@);
        if attributes[i].is_named(&key) {
            proof {
                lemma_first_index_is(attributes.deep_view(), p, i as int);
            }
            return Some(i);
        }
        i = i + 1;
    }
    proof {
        lemma_first_index_is(attributes.deep_view(), p, attributes.len() as int);
    }
    None
}

/// Whether an attribute is named `name`.
pub fn carries(attributes: &Vec<Trait>, name: &str) -> (b: bool)
    ensures
        b == has_trait(attributes.deep_view(), name@),
{
    find_trait(attributes, name).is_some()
}

/// Reads the number that the first attribute named `name` holds.
///
/// Returns `None` where no attribute has that name, or where its value is
/// not a decimal number of at most `max`.
pub fn read_number(attributes: &Vec<Trait>, name: &str, max: u64) -> (r: Option<u64>)
    ensures
        r == match trait_number(attributes.deep_view(), name@, max as nat) {
            Some(v) => Some(v as u64),
            None => None,
        },
{
    match find_trait(attributes, name) {
        Some(i) => {
            assert(attributes.deep_view()[i as int] == attributes[i as int]@);
            parse_bounded(attributes[i].value.as_str(), max)
        },
        None => None,
    }
}

/// Gives the first attribute named `name` the number `n`; changes nothing
/// where no attribute has that name.
pub fn write_number(attributes: &mut Vec<Trait>, name: &str, n: u64)
    ensures
        final(attributes).deep_view() == with_number(old(attributes).deep_view(), name@, n as nat),
{
    match find_trait(attributes, name) {
        Some(i) => {
            let t = &attributes[i];
            let updated = Trait {
                display_type: t.display_type.clone(),
                trait_type: t.trait_type.clone(),
                value: format_decimal(n),
                max_value: t.max_value.clone(),
            };
            assert(old(attributes).deep_view()[i as int] == old(attributes)[i as int]@);
            attributes.set(i, updated);
            assert(attributes.deep_view() =~= with_number(
                old(attributes).deep_view(),
                name@,
                n as nat,
            ));
        },
        None => {},
    }
}

/// Adds an attribute `name` of value zero at the end, unless one named
/// `name` is there already.
pub fn ensure_zero_default(attributes: &mut Vec<Trait>, name: &str)
    ensures
        final(attributes).deep_view() == with_zero_default(old(attributes).deep_view(), name@),
{
    if !carries(attributes, name) {
        attributes.push(Trait::plain(name, format_decimal(0)));
        assert(attributes.deep_view() =~= with_zero_default(old(attributes).deep_view(), name@));
    }
}

} // verus!
