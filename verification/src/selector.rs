//! Finding one running audio application by PID, name or identifier.

use vstd::prelude::*;

use crate::capture::{ApplicationView, AudioApplication};
use crate::error::{Error, ErrorView};
use crate::text;
use crate::text::{contains, decimal_text, parse_u32, to_lowercase, trim};

verus! {

/// The values of some applications.
pub open spec fn views(applications: Seq<AudioApplication>) -> Seq<ApplicationView> {
    applications.map_values(|application: AudioApplication| application@)
}

/// An application with the texts that it is found by.
pub struct KeyedApplication {
    pub application: AudioApplication,
    /// The name in lower case.
    pub name_key: String,
    /// The identifier in lower case; empty where none is known.
    pub identifier_key: String,
}

/// The value of a [`KeyedApplication`].
#[verifier::ext_equal]
pub struct KeyedView {
    pub application: ApplicationView,
    pub name_key: Seq<char>,
    pub identifier_key: Seq<char>,
}

impl View for KeyedApplication {
    type V = KeyedView;

    open spec fn view(&self) -> KeyedView {
        KeyedView {
            application: self.application@,
            name_key: self.name_key@,
            identifier_key: self.identifier_key@,
        }
    }
}

/// The values of some keyed applications.
pub open spec fn keyed_views(keyed: Seq<KeyedApplication>) -> Seq<KeyedView> {
    keyed.map_values(|application: KeyedApplication| application@)
}

/// Whether the name or the identifier of an application is `key`, or only has
/// `key` in it.
pub open spec fn matches_key(keyed: KeyedView, key: Seq<char>, exact: bool) -> bool {
    if exact {
        keyed.name_key == key || keyed.identifier_key == key
    } else {
        text::has_substring(keyed.name_key, key) || text::has_substring(keyed.identifier_key, key)
    }
}

/// The applications that match `key`, in the order of the list.
pub open spec fn matching(keyed: Seq<KeyedView>, key: Seq<char>, exact: bool) -> Seq<KeyedView> {
    keyed.filter(|application: KeyedView| matches_key(application, key, exact))
}

/// The applications with this PID, in the order of the list.
pub open spec fn with_pid(keyed: Seq<KeyedView>, pid: u32) -> Seq<KeyedView> {
    keyed.filter(|application: KeyedView| application.application.pid == pid)
}

/// The applications that a key names: those that it names exactly where there
/// are any, and otherwise those that it names in part.
pub open spec fn candidates(keyed: Seq<KeyedView>, key: Seq<char>) -> Seq<KeyedView> {
    if matching(keyed, key, true).len() > 0 {
        matching(keyed, key, true)
    } else {
        matching(keyed, key, false)
    }
}

/// How one application is shown in a list of matches.
pub open spec fn listing_entry(application: ApplicationView) -> Seq<char> {
    application.name + " (PID "@ + text::decimal(application.pid as nat) + ")"@
}

/// How several applications are shown, separated by commas.
pub open spec fn listing(keyed: Seq<KeyedView>) -> Seq<char>
    decreases keyed.len(),
{
    if keyed.len() == 0 {
        Seq::empty()
    } else if keyed.len() == 1 {
        listing_entry(keyed[0].application)
    } else {
        listing(keyed.drop_last()) + ", "@ + listing_entry(keyed.last().application)
    }
}

/// What a selector without white space around it, whose lower case is `key`,
/// selects among these applications.
pub open spec fn selection(selector: Seq<char>, key: Seq<char>, keyed: Seq<KeyedView>) -> Result<
    ApplicationView,
    ErrorView,
> {
    let named = candidates(keyed, key);
    if selector.len() == 0 {
        Err(ErrorView::InvalidArgument("application selector must not be empty"@))
    } else if text::parsed_u32(selector) matches Some(pid) && with_pid(keyed, pid).len() > 0 {
        Ok(with_pid(keyed, text::parsed_u32(selector)->0)[0].application)
    } else if named.len() == 1 {
        Ok(named[0].application)
    } else if named.len() == 0 {
        Err(ErrorView::ApplicationNotFound(selector))
    } else {
        Err(ErrorView::ApplicationAmbiguous { query: selector, matches: listing(named) })
    }
}

/// An application with its name and identifier in lower case.
pub open spec fn keyed(application: ApplicationView) -> KeyedView {
    KeyedView {
        application,
        name_key: text::lowercase(application.name),
        identifier_key: match application.identifier {
            Some(identifier) => text::lowercase(identifier),
            None => text::lowercase(Seq::empty()),
        },
    }
}

/// Applications with their names and identifiers in lower case.
pub open spec fn all_keyed(applications: Seq<ApplicationView>) -> Seq<KeyedView> {
    applications.map_values(|application: ApplicationView| keyed(application))
}

/// Whether the name and the identifier of an application are ASCII.
pub open spec fn is_ascii_named(application: ApplicationView) -> bool {
    &&& text::is_ascii_text(application.name)
    &&& application.identifier matches Some(identifier) ==> text::is_ascii_text(identifier)
}

/// An application with the ASCII letters of its name and identifier in lower
/// case.
pub open spec fn ascii_keyed(application: ApplicationView) -> KeyedView {
    KeyedView {
        application,
        name_key: text::ascii_lower(application.name),
        identifier_key: match application.identifier {
            Some(identifier) => text::ascii_lower(identifier),
            None => Seq::empty(),
        },
    }
}

/// What is known of the lower case of an application's texts, each by itself:
/// one that is ASCII has its letters put in lower case, and where there is no
/// identifier there is nothing to match.
pub open spec fn keys_are_known(application: ApplicationView) -> bool {
    &&& text::is_ascii_text(application.name) ==> keyed(application).name_key == text::ascii_lower(
        application.name,
    )
    &&& match application.identifier {
        Some(identifier) => text::is_ascii_text(identifier) ==> keyed(application).identifier_key
            == text::ascii_lower(identifier),
        None => keyed(application).identifier_key == Seq::<char>::empty(),
    }
    &&& is_ascii_named(application) ==> keyed(application) == ascii_keyed(application)
}

/// What a selector resolves to where every text is ASCII.
pub open spec fn ascii_resolution(
    query: Seq<char>,
    applications: Seq<ApplicationView>,
) -> Result<ApplicationView, ErrorView> {
    selection(
        text::trimmed(query),
        text::ascii_lower(text::trimmed(query)),
        applications.map_values(|application: ApplicationView| ascii_keyed(application)),
    )
}

/// What a selector resolves to among these applications.
pub open spec fn resolution(query: Seq<char>, applications: Seq<ApplicationView>) -> Result<
    ApplicationView,
    ErrorView,
> {
    selection(
        text::trimmed(query),
        text::lowercase(text::trimmed(query)),
        all_keyed(applications),
    )
}

/// A resolution by its value.
pub open spec fn resolution_view(r: Result<AudioApplication, Error>) -> Result<
    ApplicationView,
    ErrorView,
> {
    match r {
        Ok(application) => Ok(application@),
        Err(error) => Err(error@),
    }
}

/// The values of the applications at these places of a list.
spec fn at_places(keyed: Seq<KeyedView>, places: Seq<usize>) -> Seq<KeyedView> {
    places.map_values(|place: usize| keyed[place as int])
}

/// Finds the first application with this PID.
fn find_pid(keyed: &[KeyedApplication], pid: u32) -> (place: Option<usize>)
    ensures
        match place {
            Some(place) => {
                &&& place < keyed@.len()
                &&& with_pid(keyed_views(keyed@), pid).len() > 0
                &&& keyed@[place as int]@ == with_pid(keyed_views(keyed@), pid)[0]
            },
            None => with_pid(keyed_views(keyed@), pid).len() == 0,
        },
{
    let ghost all = keyed_views(keyed@);
    let ghost has_pid = |application: KeyedView| application.application.pid == pid;
    let count: usize = keyed.len();
    assert(all.take(0) =~= Seq::empty());
    proof {
        reveal(Seq::filter);
    }
    for i in 0..count
        invariant
            count == keyed@.len(),
            all == keyed_views(keyed@),
            has_pid == (|application: KeyedView| application.application.pid == pid),
            with_pid(all.take(i as int), pid).len() == 0,
    {
        proof {
            reveal(Seq::filter);
            assert(all.take(i + 1).drop_last() =~= all.take(i as int));
            assert(all.take(i + 1).last() == keyed@[i as int]@);
        }
        if keyed[i].application.pid == pid {
            proof {
                lemma_first_of_filter(all, has_pid, i as int);
            }
            return Some(i);
        }
    }
    assert(all.take(count as int) =~= all);
    None
}

/// An element that passes a filter, and before which none does, is the first
/// that the filter leaves.
proof fn lemma_first_of_filter<T>(s: Seq<T>, pred: spec_fn(T) -> bool, place: int)
    requires
        0 <= place < s.len(),
        pred(s[place]),
        s.take(place).filter(pred).len() == 0,
    ensures
        s.filter(pred).len() > 0,
        s.filter(pred)[0] == s[place],
{
    reveal(Seq::filter);
    let head = s.take(place + 1);
    let tail = s.skip(place + 1);
    assert(head.drop_last() =~= s.take(place));
    assert(head.filter(pred) =~= seq![s[place]]);
    assert(head + tail =~= s);
    Seq::filter_distributes_over_add(head, tail, pred);
}

/// Finds where the applications that match `key` stand in the list.
fn find_matching(keyed: &[KeyedApplication], key: &String, exact: bool) -> (places: Vec<usize>)
    ensures
        forall|i: int| 0 <= i < places@.len() ==> (#[trigger] places@[i]) < keyed@.len(),
        at_places(keyed_views(keyed@), places@) == matching(keyed_views(keyed@), key@, exact),
{
    let ghost all = keyed_views(keyed@);
    let mut places: Vec<usize> = Vec::new();
    let count: usize = keyed.len();
    proof {
        reveal(Seq::filter);
        assert(all.take(0) =~= Seq::empty());
        assert(at_places(all, places@) =~= Seq::empty());
    }
    for i in 0..count
        invariant
            count == keyed@.len(),
            all == keyed_views(keyed@),
            forall|k: int| 0 <= k < places@.len() ==> (#[trigger] places@[k]) < i,
            at_places(all, places@) == matching(all.take(i as int), key@, exact),
    {
        let application = &keyed[i];
        let found: bool = if exact {
            application.name_key == *key || application.identifier_key == *key
        } else {
            contains(application.name_key.as_str(), key.as_str()) || contains(
                application.identifier_key.as_str(),
                key.as_str(),
            )
        };
        let ghost before = places@;
        proof {
            assert(all[i as int] == application@);
            assert(found == matches_key(all[i as int], key@, exact));
        }
        if found {
            places.push(i);
        }
        proof {
            reveal(Seq::filter);
            assert(all.take(i + 1).drop_last() =~= all.take(i as int));
            assert(all.take(i + 1).last() == all[i as int]);
            if found {
                assert(at_places(all, places@) =~= at_places(all, before).push(all[i as int]));
            }
        }
    }
    assert(all.take(count as int) =~= all);
    places
}

/// Shows the applications at these places.
fn list_matches(keyed: &[KeyedApplication], places: &Vec<usize>) -> (r: String)
    requires
        forall|i: int| 0 <= i < places@.len() ==> (#[trigger] places@[i]) < keyed@.len(),
    ensures
        r@ == listing(at_places(keyed_views(keyed@), places@)),
{
    let ghost shown = at_places(keyed_views(keyed@), places@);
    let mut r = String::new();
    let count: usize = places.len();
    for i in 0..count
        invariant
            count == places@.len(),
            shown == at_places(keyed_views(keyed@), places@),
            forall|k: int| 0 <= k < places@.len() ==> (#[trigger] places@[k]) < keyed@.len(),
            r@ == listing(shown.take(i as int)),
    {
        let application = &keyed[places[i]].application;
        proof {
            assert(shown[i as int].application == application@);
            assert(shown.take(i + 1).drop_last() =~= shown.take(i as int));
            assert(shown.take(i + 1).last() == shown[i as int]);
        }
        if i > 0 {
            r.append(", ");
        }
        let entry = application.name.clone().concat(" (PID ").concat(
            decimal_text(application.pid).as_str(),
        ).concat(")");
        r.append(entry.as_str());
        assert(r@ =~= listing(shown.take(i + 1)));
    }
    assert(shown.take(count as int) =~= shown);
    r
}

/// Selects one of these applications by a selector without white space around
/// it, whose lower case is `key`.
pub fn select_application(selector: &str, key: &String, keyed: &[KeyedApplication]) -> (r: Result<
    AudioApplication,
    Error,
>)
    ensures
        resolution_view(r) == selection(selector@, key@, keyed_views(keyed@)),
{
    if selector.is_empty() {
        return Err(Error::InvalidArgument("application selector must not be empty"));
    }
    if let Some(pid) = parse_u32(selector) {
        if let Some(place) = find_pid(keyed, pid) {
            return Ok(keyed[place].application.clone());
        }
    }
    let exact = find_matching(keyed, key, true);
    let places = if exact.len() > 0 {
        exact
    } else {
        find_matching(keyed, key, false)
    };
    let ghost named = candidates(keyed_views(keyed@), key@);
    assert(at_places(keyed_views(keyed@), places@) == named);
    if places.len() == 1 {
        assert(named[0] == keyed_views(keyed@)[places@[0] as int]);
        Ok(keyed[places[0]].application.clone())
    } else if places.len() == 0 {
        Err(Error::ApplicationNotFound(selector.to_owned()))
    } else {
        Err(
            Error::ApplicationAmbiguous {
                query: selector.to_owned(),
                matches: list_matches(keyed, &places),
            },
        )
    }
}

/// Puts the name and the identifier of an application in lower case.
fn key_application(application: &AudioApplication) -> (r: KeyedApplication)
    ensures
        r@ == keyed(application@),
        keys_are_known(application@),
{
    let identifier_key = match &application.identifier {
        Some(identifier) => to_lowercase(identifier.as_str()),
        None => {
            let nothing = String::new();
            let key = to_lowercase(nothing.as_str());
            assert(text::ascii_lower(Seq::empty()) =~= Seq::empty());
            key
        },
    };
    KeyedApplication {
        application: application.clone(),
        name_key: to_lowercase(application.name.as_str()),
        identifier_key,
    }
}

/// Resolves a PID, exact application name or identifier, or unique substring to
/// one of these applications. The case of ASCII letters does not matter, whatever
/// else the texts hold.
pub fn resolve_audio_application_from(query: &str, applications: &[AudioApplication]) -> (r: Result<
    AudioApplication,
    Error,
>)
    ensures
        resolution_view(r) == resolution(query@, views(applications@)),
        text::is_ascii_text(text::trimmed(query@)) ==> text::lowercase(text::trimmed(query@))
            == text::ascii_lower(text::trimmed(query@)),
        forall|i: int|
            0 <= i < applications@.len() ==> keys_are_known(#[trigger] views(applications@)[i]),
        text::is_ascii_text(text::trimmed(query@)) && (forall|i: int|
            0 <= i < applications@.len() ==> is_ascii_named(#[trigger] views(applications@)[i]))
            ==> resolution_view(r) == ascii_resolution(query@, views(applications@)),
        forall|other: Seq<char>|
            r is Ok && text::ascii_lower(other) == text::ascii_lower(query@)
                ==> #[trigger] resolution(other, views(applications@)) == resolution_view(r),
{
    let selector = trim(query);
    let key = to_lowercase(selector);
    let ghost all = all_keyed(views(applications@));
    let ghost ascii = views(applications@).map_values(
        |application: ApplicationView| ascii_keyed(application),
    );
    let mut list: Vec<KeyedApplication> = Vec::new();
    let count: usize = applications.len();
    assert(keyed_views(list@) =~= all.take(0));
    for i in 0..count
        invariant
            count == applications@.len(),
            all == all_keyed(views(applications@)),
            keyed_views(list@) == all.take(i as int),
            forall|k: int| 0 <= k < i ==> keys_are_known(#[trigger] views(applications@)[k]),
    {
        let ghost before = list@;
        let next = key_application(&applications[i]);
        list.push(next);
        assert(keyed_views(list@) =~= keyed_views(before).push(next@));
        assert(all[i as int] == keyed(applications@[i as int]@));
        assert(all.take(i as int).push(all[i as int]) =~= all.take(i + 1));
        assert(views(applications@)[i as int] == applications@[i as int]@);
    }
    proof {
        assert(all.take(count as int) =~= all);
        if forall|i: int|
            0 <= i < applications@.len() ==> is_ascii_named(#[trigger] views(applications@)[i]) {
            assert forall|k: int| 0 <= k < all.len() implies all[k] == ascii[k] by {
                assert(is_ascii_named(views(applications@)[k]));
                assert(all[k] == keyed(views(applications@)[k]));
            }
            assert(all =~= ascii);
        }
        assert forall|other: Seq<char>|
            resolution(query@, views(applications@)) is Ok && text::ascii_lower(other)
                == text::ascii_lower(query@) implies #[trigger] resolution(
            other,
            views(applications@),
        ) == resolution(query@, views(applications@)) by {
            text::lemma_trimming_ignores_case(other, query@);
            text::lemma_numbers_ignore_case(text::trimmed(other), selector@);
            assert(text::lowercase(text::trimmed(other)) == key@);
            assert(text::ascii_lower(text::trimmed(other)).len() == text::ascii_lower(
                selector@,
            ).len());
        }
    }
    select_application(selector, &key, list.as_slice())
}

/// What a selector resolves to is one of the applications in the list.
pub proof fn law_resolution_is_in_the_list(query: Seq<char>, applications: Seq<ApplicationView>)
    ensures
        resolution(query, applications) matches Ok(application) ==> applications.contains(
            application,
        ),
{
    if let Ok(application) = resolution(query, applications) {
        let key = text::lowercase(text::trimmed(query));
        let all = all_keyed(applications);
        lemma_filter_keeps_elements(all, |k: KeyedView| matches_key(k, key, true));
        lemma_filter_keeps_elements(all, |k: KeyedView| matches_key(k, key, false));
        if let Some(pid) = text::parsed_u32(text::trimmed(query)) {
            lemma_filter_keeps_elements(all, |k: KeyedView| k.application.pid == pid);
        }
        assert forall|k: KeyedView| all.contains(k) implies applications.contains(
            #[trigger] k.application,
        ) by {
            let place = choose|place: int| 0 <= place < all.len() && all[place] == k;
            assert(applications[place] == k.application);
        }
    }
}

proof fn lemma_filter_keeps_elements<T>(s: Seq<T>, pred: spec_fn(T) -> bool)
    ensures
        forall|i: int|
            0 <= i < s.filter(pred).len() ==> s.contains(#[trigger] s.filter(pred)[i]) && pred(
                s.filter(pred)[i],
            ),
    decreases s.len(),
{
    reveal(Seq::filter);
    if s.len() > 0 {
        let front = s.drop_last();
        lemma_filter_keeps_elements(front, pred);
        assert forall|i: int| 0 <= i < s.filter(pred).len() implies s.contains(
            #[trigger] s.filter(pred)[i],
        ) && pred(s.filter(pred)[i]) by {
            if i < front.filter(pred).len() {
                let element = front.filter(pred)[i];
                assert(s.filter(pred)[i] == element);
                let place = choose|place: int| 0 <= place < front.len() && front[place] == element;
                assert(s[place] == element);
            } else {
                assert(s[s.len() - 1] == s.last());
            }
        }
    }
}

/// White space around a selector does not matter.
pub proof fn law_white_space_does_not_matter(
    before: Seq<char>,
    query: Seq<char>,
    after: Seq<char>,
    applications: Seq<ApplicationView>,
)
    requires
        text::is_blank(before),
        text::is_blank(after),
    ensures
        resolution(before + query + after, applications) == resolution(query, applications),
        resolution(text::trimmed(query), applications) == resolution(query, applications),
{
    text::law_trimming_is_idempotent(query);
    text::law_surrounding_white_space_is_trimmed(before, query, after);
}

/// The PID of a listed application, written in decimal, selects the first
/// application with that PID, whatever the applications are called.
pub proof fn law_a_pid_selects_its_application(applications: Seq<ApplicationView>, place: int)
    requires
        0 <= place < applications.len(),
    ensures
        ({
            let pid = applications[place].pid;
            let found = with_pid(all_keyed(applications), pid);
            &&& found.len() > 0
            &&& found[0].application.pid == pid
            &&& resolution(text::decimal(pid as nat), applications) == Ok::<_, ErrorView>(
                found[0].application,
            )
        }),
{
    let pid = applications[place].pid;
    let all = all_keyed(applications);
    let has_pid = |k: KeyedView| k.application.pid == pid;
    text::lemma_decimal_reads_back(pid as nat);
    text::lemma_digits_are_not_trimmed(text::decimal(pid as nat));
    lemma_filter_keeps_elements(all, has_pid);
    assert(all[place].application == applications[place]);
    lemma_filter_finds(all, has_pid, place);
}

proof fn lemma_filter_finds<T>(s: Seq<T>, pred: spec_fn(T) -> bool, place: int)
    requires
        0 <= place < s.len(),
        pred(s[place]),
    ensures
        s.filter(pred).len() > 0,
    decreases s.len(),
{
    reveal(Seq::filter);
    if place < s.len() - 1 {
        lemma_filter_finds(s.drop_last(), pred, place);
    }
}

/// The case of letters does not matter: selectors that are the same in lower
/// case, and that are no numbers, select the same application or none.
pub proof fn law_case_does_not_matter(
    one: Seq<char>,
    other: Seq<char>,
    applications: Seq<ApplicationView>,
)
    requires
        text::trimmed(one).len() > 0,
        text::trimmed(other).len() > 0,
        text::lowercase(text::trimmed(one)) == text::lowercase(text::trimmed(other)),
        text::parsed_u32(text::trimmed(one)) is None,
        text::parsed_u32(text::trimmed(other)) is None,
    ensures
        resolution(one, applications) is Ok <==> resolution(other, applications) is Ok,
        resolution(one, applications) matches Ok(application) ==> resolution(other, applications)
            == Ok::<_, ErrorView>(application),
{
}

/// An exact match wins: where one application has just the name or identifier
/// that is asked for, it is selected, however many others have it as a part of
/// theirs.
pub proof fn law_an_exact_match_wins(
    selector: Seq<char>,
    key: Seq<char>,
    keyed: Seq<KeyedView>,
    application: KeyedView,
)
    requires
        selector.len() > 0,
        text::parsed_u32(selector) is None,
        matching(keyed, key, true) == seq![application],
    ensures
        selection(selector, key, keyed) == Ok::<_, ErrorView>(application.application),
{
}

/// A part of a name is enough where only one application has it and none has
/// exactly that name.
pub proof fn law_a_unique_part_selects(
    selector: Seq<char>,
    key: Seq<char>,
    keyed: Seq<KeyedView>,
    application: KeyedView,
)
    requires
        selector.len() > 0,
        text::parsed_u32(selector) is None,
        matching(keyed, key, true).len() == 0,
        matching(keyed, key, false) == seq![application],
    ensures
        selection(selector, key, keyed) == Ok::<_, ErrorView>(application.application),
{
}

/// No guess is made: where several applications are named equally well, none of
/// them is selected, and all of them are listed.
pub proof fn law_ambiguity_is_reported(selector: Seq<char>, key: Seq<char>, keyed: Seq<KeyedView>)
    requires
        selector.len() > 0,
        text::parsed_u32(selector) is None,
        candidates(keyed, key).len() > 1,
    ensures
        selection(selector, key, keyed) == Err::<ApplicationView, _>(
            ErrorView::ApplicationAmbiguous {
                query: selector,
                matches: listing(candidates(keyed, key)),
            },
        ),
{
}

/// What a selector selects. Nothing is selected by no text. A number that is the
/// PID of applications selects the first of them. Any other selector stands for
/// those applications whose name or identifier, in lower case, is its lower case;
/// where there are none, for those in whose name or identifier it occurs. If that
/// is one application, it is selected; if there is none, or more than one, that
/// is reported, with the name and the PID of each of them in order.
pub proof fn law_what_a_selector_selects(
    selector: Seq<char>,
    key: Seq<char>,
    all: Seq<KeyedView>,
)
    ensures
        ({
            let result = selection(selector, key, all);
            let exact = all.filter(|a: KeyedView| a.name_key == key || a.identifier_key == key);
            let part = all.filter(
                |a: KeyedView|
                    text::has_substring(a.name_key, key) || text::has_substring(
                        a.identifier_key,
                        key,
                    ),
            );
            let named = if exact.len() > 0 {
                exact
            } else {
                part
            };
            let by_pid = match text::parsed_u32(selector) {
                Some(pid) => all.filter(|a: KeyedView| a.application.pid == pid),
                None => Seq::empty(),
            };
            &&& selector.len() == 0 ==> result == Err::<ApplicationView, _>(
                ErrorView::InvalidArgument("application selector must not be empty"@),
            )
            &&& selector.len() > 0 && by_pid.len() > 0 ==> result == Ok::<_, ErrorView>(
                by_pid[0].application,
            )
            &&& selector.len() > 0 && by_pid.len() == 0 && named.len() == 1 ==> result == Ok::<
                _,
                ErrorView,
            >(named[0].application)
            &&& selector.len() > 0 && by_pid.len() == 0 && named.len() == 0 ==> result == Err::<
                ApplicationView,
                _,
            >(ErrorView::ApplicationNotFound(selector))
            &&& selector.len() > 0 && by_pid.len() == 0 && named.len() > 1 ==> {
                &&& result matches Err(ErrorView::ApplicationAmbiguous { query, matches })
                &&& query == selector
                &&& matches + ", "@ == named.map_values(
                    |a: KeyedView|
                        a.application.name + " (PID "@ + text::decimal(a.application.pid as nat)
                            + "), "@,
                ).flatten()
            }
        }),
{
    let exact = |a: KeyedView| a.name_key == key || a.identifier_key == key;
    let part = |a: KeyedView|
        text::has_substring(a.name_key, key) || text::has_substring(a.identifier_key, key);
    lemma_same_filter(all, exact, |a: KeyedView| matches_key(a, key, true));
    lemma_same_filter(all, part, |a: KeyedView| matches_key(a, key, false));
    if let Some(pid) = text::parsed_u32(selector) {
        lemma_same_filter(
            all,
            |a: KeyedView| a.application.pid == pid,
            |application: KeyedView| application.application.pid == pid,
        );
    }
    let named = candidates(all, key);
    if named.len() > 0 {
        lemma_listing_is_joined(named);
    }
}

proof fn lemma_same_filter<T>(s: Seq<T>, one: spec_fn(T) -> bool, other: spec_fn(T) -> bool)
    requires
        forall|x: T| #[trigger] one(x) == other(x),
    ensures
        s.filter(one) == s.filter(other),
    decreases s.len(),
{
    reveal(Seq::filter);
    if s.len() > 0 {
        lemma_same_filter(s.drop_last(), one, other);
        assert(one(s.last()) == other(s.last()));
    }
}

proof fn lemma_listing_is_joined(named: Seq<KeyedView>)
    requires
        named.len() > 0,
    ensures
        listing(named) + ", "@ == named.map_values(
            |a: KeyedView|
                a.application.name + " (PID "@ + text::decimal(a.application.pid as nat) + "), "@,
        ).flatten(),
    decreases named.len(),
{
    let entry = |a: KeyedView|
        a.application.name + " (PID "@ + text::decimal(a.application.pid as nat) + "), "@;
    let front = named.drop_last();
    let last = named.last();
    let shown = front.map_values(entry);
    reveal_strlit(")");
    reveal_strlit(", ");
    reveal_strlit("), ");
    assert(")"@ + ", "@ =~= "), "@);
    assert(named.map_values(entry) =~= shown.push(entry(last)));
    shown.lemma_flatten_push(entry(last));
    assert(listing_entry(last.application) + ", "@ =~= entry(last));
    if front.len() > 0 {
        lemma_listing_is_joined(front);
        assert(listing(named) + ", "@ =~= (listing(front) + ", "@) + entry(last));
    } else {
        assert(named[0] == last);
        assert(shown =~= Seq::<Seq<char>>::empty());
        assert(shown.flatten() + entry(last) =~= entry(last));
    }
}

/// What a query resolves to: what it selects, without the white space around it,
/// among the applications by their names and identifiers, all in lower case.
pub proof fn law_what_a_query_resolves_to(query: Seq<char>, applications: Seq<ApplicationView>)
    ensures
        resolution(query, applications) == selection(
            text::trimmed(query),
            text::lowercase(text::trimmed(query)),
            applications.map_values(
                |a: ApplicationView|
                    KeyedView {
                        application: a,
                        name_key: text::lowercase(a.name),
                        identifier_key: text::lowercase(
                            match a.identifier {
                                Some(identifier) => identifier,
                                None => Seq::empty(),
                            },
                        ),
                    },
            ),
        ),
{
    assert(all_keyed(applications) =~= applications.map_values(
        |a: ApplicationView|
            KeyedView {
                application: a,
                name_key: text::lowercase(a.name),
                identifier_key: text::lowercase(
                    match a.identifier {
                        Some(identifier) => identifier,
                        None => Seq::empty(),
                    },
                ),
            },
    ));
}

/// Applications, keyed ones and results are seen whole, each in its place.
pub proof fn law_selections_are_seen_whole(
    applications: Seq<AudioApplication>,
    keyed: Seq<KeyedApplication>,
    found: AudioApplication,
    error: Error,
    i: int,
)
    ensures
        views(applications).len() == applications.len(),
        0 <= i < applications.len() ==> views(applications)[i] == applications[i]@,
        keyed_views(keyed).len() == keyed.len(),
        0 <= i < keyed.len() ==> {
            let seen = keyed_views(keyed)[i];
            &&& seen.application == keyed[i].application@
            &&& seen.name_key == keyed[i].name_key@
            &&& seen.identifier_key == keyed[i].identifier_key@
        },
        resolution_view(Ok(found)) == Ok::<_, ErrorView>(found@),
        resolution_view(Err(error)) == Err::<ApplicationView, _>(error@),
{
}

} // verus!
