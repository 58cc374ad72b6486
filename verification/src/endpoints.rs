//! The sockets a node announces during setup under the labels its manifest
//! declares.
use crate::error::{Error, ErrorView, Result};
use crate::sorted_map::SortedMap;
use crate::text;
use vstd::prelude::*;
use vstd::string::*;

verus! {

/// The address that a listener is bound to.
#[derive(Debug, PartialEq, Eq)]
pub struct EndpointAddress {
    pub host: String,
    pub port: u16,
}

/// The socket a node bound for one declared endpoint.
#[derive(Debug, PartialEq, Eq)]
pub struct EndpointBinding {
    /// The URI scheme, such as `http`.
    pub scheme: String,
    /// What the listener bound, as the operating system reports it back.
    pub address: EndpointAddress,
    /// Empty, or a path that starts with `/`.
    pub path: String,
}

/// The view of an [`EndpointBinding`].
pub struct BindingView {
    pub scheme: Seq<char>,
    pub host: Seq<char>,
    pub port: u16,
    pub path: Seq<char>,
}

impl View for EndpointBinding {
    type V = BindingView;

    open spec fn view(&self) -> BindingView {
        BindingView {
            scheme: self.scheme@,
            host: self.address.host@,
            port: self.address.port,
            path: self.path@,
        }
    }
}

impl Clone for EndpointBinding {
    fn clone(&self) -> (copy: Self)
        ensures
            copy@ == self@,
    {
        EndpointBinding {
            scheme: self.scheme.clone(),
            address: EndpointAddress { host: self.address.host.clone(), port: self.address.port },
            path: self.path.clone(),
        }
    }
}

/// Whether `c` is a lowercase letter.
pub open spec fn lowercase(c: char) -> bool {
    'a' <= c <= 'z'
}

/// Whether `c` may follow the first letter of a scheme.
pub open spec fn scheme_char(c: char) -> bool {
    lowercase(c) || '0' <= c <= '9' || c == '+' || c == '.' || c == '-'
}

/// Whether `scheme` is a URI scheme token.
pub open spec fn scheme_token(scheme: Seq<char>) -> bool {
    &&& scheme.len() > 0
    &&& lowercase(scheme[0])
    &&& forall|i: int| 1 <= i < scheme.len() ==> scheme_char(#[trigger] scheme[i])
}

/// Whether `scheme` is a URI scheme token.
pub fn is_scheme_token(scheme: &str) -> (token: bool)
    ensures
        token == scheme_token(scheme@),
{
    let count: usize = scheme.unicode_len();
    if count == 0 {
        return false;
    }
    let first: char = scheme.get_char(0);
    if !('a' <= first && first <= 'z') {
        return false;
    }
    let mut i: usize = 1;
    while i < count
        invariant
            1 <= i <= count,
            count == scheme@.len(),
            forall|j: int| 1 <= j < i ==> scheme_char(#[trigger] scheme@[j]),
        decreases count - i,
    {
        let c: char = scheme.get_char(i);
        let admitted: bool = ('a' <= c && c <= 'z') || ('0' <= c && c <= '9') || c == '+' || c == '.'
            || c == '-';
        if !admitted {
            proof {
                assert(!scheme_char(scheme@[i as int]));
            }
            return false;
        }
        i = i + 1;
    }
    true
}

/// Whether `path` is empty or starts with `/`.
pub open spec fn rooted(path: Seq<char>) -> bool {
    path.len() == 0 || path[0] == '/'
}

/// Why a binding is refused.
pub open spec fn binding_refusal(binding: BindingView) -> Option<Seq<char>> {
    if !scheme_token(binding.scheme) {
        Some(
            "scheme `"@ + binding.scheme
                + "` is not a URI scheme token (lowercase letters, digits, `+`, `.` and `-`, starting with a letter)"@,
        )
    } else if !rooted(binding.path) {
        Some("path `"@ + binding.path + "` must be empty or start with `/`"@)
    } else {
        None
    }
}

impl EndpointBinding {
    /// Refuses a scheme that is no URI scheme token and a path that does not start
    /// with `/`, saying what is wrong.
    pub fn validate(&self) -> (checked: std::result::Result<(), String>)
        ensures
            match checked {
                Ok(_) => binding_refusal(self@) is None,
                Err(reason) => binding_refusal(self@) == Some(reason@),
            },
    {
        if !is_scheme_token(self.scheme.as_str()) {
            let mut reason = "scheme `".to_owned();
            reason.append(self.scheme.as_str());
            reason.append(
                "` is not a URI scheme token (lowercase letters, digits, `+`, `.` and `-`, starting with a letter)",
            );
            return Err(reason);
        }
        let path: &str = self.path.as_str();
        if path.unicode_len() > 0 && path.get_char(0) != '/' {
            let mut reason = "path `".to_owned();
            reason.append(path);
            reason.append("` must be empty or start with `/`");
            return Err(reason);
        }
        Ok(())
    }
}

/// One announced endpoint: the declared label and the socket bound for it.
#[derive(Debug, PartialEq, Eq)]
pub struct AnnouncedEndpoint {
    pub label: String,
    pub binding: EndpointBinding,
}

/// Whether `list` holds the announced endpoints, each once and in label order.
pub open spec fn lists_announced(
    list: Seq<AnnouncedEndpoint>,
    announced: Map<Seq<char>, BindingView>,
) -> bool {
    &&& forall|i: int|
        0 <= i < list.len() ==> announced.dom().contains((#[trigger] list[i]).label@)
            && list[i].binding@ == announced[list[i].label@]
    &&& forall|label: Seq<char>| #[trigger]
        announced.dom().contains(label) ==> exists|i: int|
            0 <= i < list.len() && (#[trigger] list[i]).label@ == label
    &&& forall|i: int, j: int|
        0 <= i < j < list.len() ==> text::text_less(
            (#[trigger] list[i]).label@,
            (#[trigger] list[j]).label@,
        )
}

/// The announced endpoints of one instance, from the first announcement to the
/// seal that ends setup.
pub struct AnnouncedEndpoints {
    declared: SortedMap<()>,
    announced: SortedMap<EndpointBinding>,
    sealed: bool,
}

/// The view of an [`AnnouncedEndpoints`].
#[verifier::ext_equal]
pub struct EndpointsView {
    pub declared: Set<Seq<char>>,
    pub announced: Map<Seq<char>, BindingView>,
    pub sealed: bool,
}

/// The bindings of a map, read off their views.
pub open spec fn binding_views(bindings: Map<Seq<char>, EndpointBinding>) -> Map<
    Seq<char>,
    BindingView,
> {
    bindings.map_values(|binding: EndpointBinding| binding@)
}

impl View for AnnouncedEndpoints {
    type V = EndpointsView;

    closed spec fn view(&self) -> EndpointsView {
        EndpointsView {
            declared: self.declared@.dom(),
            announced: binding_views(self.announced@),
            sealed: self.sealed,
        }
    }
}

impl EndpointsView {
    /// What holds of the endpoints at any time: only declared labels are announced,
    /// every announced binding is well formed, and a sealed set is complete.
    pub open spec fn wf(self) -> bool {
        &&& forall|label: Seq<char>| #[trigger]
            self.announced.dom().contains(label) ==> self.declared.contains(label)
                && binding_refusal(self.announced[label]) is None
        &&& self.sealed ==> self.complete()
    }

    /// Whether every declared label is announced.
    pub open spec fn complete(self) -> bool {
        forall|label: Seq<char>| #[trigger]
            self.declared.contains(label) ==> self.announced.dom().contains(label)
    }
}

/// Why an announcement is refused: the label is not declared, the set is sealed,
/// the label is taken, or the binding is malformed, in this order.
pub open spec fn announcement_refusal(
    endpoints: EndpointsView,
    label: Seq<char>,
    binding: BindingView,
) -> Option<ErrorView> {
    if !endpoints.declared.contains(label) {
        Some(ErrorView::UndeclaredEndpoint { label })
    } else if endpoints.sealed {
        Some(ErrorView::EndpointsSealed { label })
    } else if endpoints.announced.dom().contains(label) {
        Some(ErrorView::EndpointAlreadyAnnounced { label })
    } else {
        match binding_refusal(binding) {
            Some(reason) => Some(ErrorView::InvalidEndpointBinding { label, reason }),
            None => None,
        }
    }
}

/// The endpoints after an announcement. A refused one leaves nothing behind.
pub open spec fn after_announcement(
    endpoints: EndpointsView,
    label: Seq<char>,
    binding: BindingView,
) -> EndpointsView {
    if announcement_refusal(endpoints, label, binding) is None {
        EndpointsView { announced: endpoints.announced.insert(label, binding), ..endpoints }
    } else {
        endpoints
    }
}

/// The endpoints after a seal. An incomplete set stays open.
pub open spec fn after_seal(endpoints: EndpointsView) -> EndpointsView {
    if endpoints.complete() {
        EndpointsView { sealed: true, ..endpoints }
    } else {
        endpoints
    }
}

/// Whether `label` is the first declared label, in label order, that is not
/// announced.
pub open spec fn first_missing(endpoints: EndpointsView, label: Seq<char>) -> bool {
    &&& endpoints.declared.contains(label)
    &&& !endpoints.announced.dom().contains(label)
    &&& forall|other: Seq<char>| #[trigger]
        endpoints.declared.contains(other) && text::text_less(other, label)
            ==> endpoints.announced.dom().contains(other)
}

/// The views of a sequence of labels.
pub open spec fn label_set(labels: Seq<String>) -> Set<Seq<char>> {
    text::texts(labels).to_set()
}

impl AnnouncedEndpoints {
    #[verifier::type_invariant]
    spec fn valid(self) -> bool {
        self@.wf()
    }

    /// The endpoints of a manifest that declares `labels`, none announced yet.
    pub fn new(labels: Vec<String>) -> (endpoints: Self)
        ensures
            endpoints@ == (EndpointsView {
                declared: label_set(labels@),
                announced: Map::empty(),
                sealed: false,
            }),
            endpoints@.wf(),
    {
        let mut declared: SortedMap<()> = SortedMap::new();
        let ghost names = text::texts(labels@);
        let mut i: usize = 0;
        while i < labels.len()
            invariant
                i <= labels@.len(),
                names == text::texts(labels@),
                forall|label: Seq<char>| #[trigger]
                    declared@.dom().contains(label) <==> names.take(i as int).contains(label),
            decreases labels@.len() - i,
        {
            let ghost before = declared@;
            declared.insert(labels[i].clone(), ());
            proof {
                let shorter = names.take(i as int);
                let longer = names.take(i + 1);
                assert(longer[i as int] == names[i as int]);
                assert forall|label: Seq<char>| #[trigger]
                    declared@.dom().contains(label) <==> longer.contains(label) by {
                    assert(declared@.dom() =~= before.dom().insert(names[i as int]));
                    if longer.contains(label) && label != names[i as int] {
                        let k = choose|k: int| 0 <= k < longer.len() && longer[k] == label;
                        assert(shorter[k] == label);
                    }
                    if shorter.contains(label) {
                        let k = choose|k: int| 0 <= k < shorter.len() && shorter[k] == label;
                        assert(longer[k] == label);
                    }
                }
            }
            i = i + 1;
        }
        let announced: SortedMap<EndpointBinding> = SortedMap::new();
        proof {
            assert(names.take(i as int) =~= names);
            assert(declared@.dom() =~= label_set(labels@));
            assert(binding_views(announced@) =~= Map::<Seq<char>, BindingView>::empty());
        }
        AnnouncedEndpoints { declared, announced, sealed: false }
    }

    /// Whether the manifest declares any endpoint.
    pub fn declares_any(&self) -> (any: bool)
        ensures
            any == (self@.declared != Set::<Seq<char>>::empty()),
    {
        let count: usize = self.declared.len();
        proof {
            if count == 0 {
                assert forall|label: Seq<char>| !self@.declared.contains(label) by {
                    if self.declared@.dom().contains(label) {
                        assert(self.declared.keys().contains(label));
                    }
                }
                assert(self@.declared =~= Set::<Seq<char>>::empty());
            } else {
                assert(self.declared@.dom().contains(self.declared.keys()[0]));
            }
        }
        count != 0
    }

    /// Announces the socket bound for `label`.
    pub fn announce(&mut self, label: &str, binding: EndpointBinding) -> (announced: Result<()>)
        ensures
            old(self)@.wf(),
            final(self)@.wf(),
            final(self)@ == after_announcement(old(self)@, label@, binding@),
            match announced {
                Ok(_) => announcement_refusal(old(self)@, label@, binding@) is None,
                Err(error) => announcement_refusal(old(self)@, label@, binding@) == Some(error@),
            },
    {
        proof {
            use_type_invariant(&*self);
        }
        if !self.declared.contains_key(label) {
            return Err(Error::UndeclaredEndpoint { label: label.to_owned() });
        }
        if self.sealed {
            return Err(Error::EndpointsSealed { label: label.to_owned() });
        }
        if self.announced.contains_key(label) {
            return Err(Error::EndpointAlreadyAnnounced { label: label.to_owned() });
        }
        if let Err(reason) = binding.validate() {
            return Err(Error::InvalidEndpointBinding { label: label.to_owned(), reason });
        }
        let ghost before = self.announced@;
        let ghost bound = binding;
        let mut announced: SortedMap<EndpointBinding> = SortedMap::new();
        proof {
            assert(binding_views(announced@) =~= Map::<Seq<char>, BindingView>::empty());
        }
        std::mem::swap(&mut announced, &mut self.announced);
        announced.insert(label.to_owned(), binding);
        proof {
            assert(binding_views(before.insert(label@, bound)) =~= binding_views(before).insert(
                label@,
                bound@,
            ));
        }
        self.announced = announced;
        proof {
            use_type_invariant(&*self);
        }
        Ok(())
    }

    /// Whether the announcements have ended.
    pub fn is_sealed(&self) -> (sealed: bool)
        ensures
            self@.wf(),
            sealed == self@.sealed,
    {
        proof {
            use_type_invariant(self);
        }
        self.sealed
    }

    /// The endpoints announced so far, in label order.
    pub fn snapshot(&self) -> (list: Vec<AnnouncedEndpoint>)
        ensures
            self@.wf(),
            lists_announced(list@, self@.announced),
    {
        proof {
            use_type_invariant(self);
        }
        let mut list: Vec<AnnouncedEndpoint> = Vec::new();
        let count: usize = self.announced.len();
        let ghost keys = self.announced.keys();
        let mut i: usize = 0;
        while i < count
            invariant
                keys == self.announced.keys(),
                self.announced.keys_listed(),
                count == keys.len(),
                i <= count,
                list@.len() == i,
                forall|j: int|
                    0 <= j < i ==> (#[trigger] list@[j]).label@ == keys[j] && list@[j].binding@
                        == self.announced@[keys[j]]@,
            decreases count - i,
        {
            list.push(
                AnnouncedEndpoint {
                    label: self.announced.key_at(i).clone(),
                    binding: self.announced.value_at(i).clone(),
                },
            );
            i = i + 1;
        }
        proof {
            let announced = self@.announced;
            assert forall|n: int| 0 <= n < list@.len() implies announced.dom().contains(
                (#[trigger] list@[n]).label@,
            ) && list@[n].binding@ == announced[list@[n].label@] by {
                assert(self.announced@.dom().contains(keys[n]));
            }
            assert forall|label: Seq<char>| #[trigger]
                announced.dom().contains(label) implies exists|n: int|
                0 <= n < list@.len() && (#[trigger] list@[n]).label@ == label by {
                assert(keys.contains(label));
                let n = choose|n: int| 0 <= n < keys.len() && keys[n] == label;
                assert(list@[n].label@ == label);
            }
            assert forall|a: int, b: int| 0 <= a < b < list@.len() implies text::text_less(
                (#[trigger] list@[a]).label@,
                (#[trigger] list@[b]).label@,
            ) by {
                assert(text::text_less(keys[a], keys[b]));
            }
        }
        list
    }

    /// Ends the announcements and checks them against the declaration: what is
    /// announced then is what is declared, no less and no more. A set that is sealed
    /// already is answered again.
    pub fn seal(&mut self) -> (sealed: Result<Vec<AnnouncedEndpoint>>)
        ensures
            old(self)@.wf(),
            final(self)@.wf(),
            final(self)@ == after_seal(old(self)@),
            match sealed {
                Ok(list) => old(self)@.complete() && lists_announced(list@, old(self)@.announced)
                    && final(self)@.announced.dom() == final(self)@.declared,
                Err(error) => !old(self)@.complete() && exists|label: Seq<char>| #[trigger]
                    first_missing(old(self)@, label) && error@
                        == (ErrorView::EndpointNotAnnounced { label }),
            },
    {
        proof {
            use_type_invariant(&*self);
        }
        let count: usize = self.declared.len();
        let ghost keys = self.declared.keys();
        let ghost before = self@;
        let mut i: usize = 0;
        while i < count
            invariant
                before == old(self)@,
                before.wf(),
                self@ == before,
                keys == self.declared.keys(),
                self.declared.keys_listed(),
                count == keys.len(),
                i <= count,
                forall|j: int| 0 <= j < i ==> before.announced.dom().contains(#[trigger] keys[j]),
            decreases count - i,
        {
            let label = self.declared.key_at(i);
            if !self.announced.contains_key(label.as_str()) {
                proof {
                    assert forall|other: Seq<char>| #[trigger]
                        before.declared.contains(other) && text::text_less(
                            other,
                            label@,
                        ) implies before.announced.dom().contains(other) by {
                        crate::slot_setup::lemma_earlier_key(&self.declared, i as int, other);
                        let j = choose|j: int| 0 <= j < i && #[trigger] self.declared.keys()[j] == other;
                        assert(before.announced.dom().contains(keys[j]));
                    }
                    assert(first_missing(before, label@));
                    assert(!before.announced.dom().contains(label@));
                    assert(before.declared.contains(label@));
                }
                return Err(Error::EndpointNotAnnounced { label: label.clone() });
            }
            i = i + 1;
        }
        proof {
            assert forall|label: Seq<char>| #[trigger]
                before.declared.contains(label) implies before.announced.dom().contains(label) by {
                let k = choose|k: int| 0 <= k < keys.len() && keys[k] == label;
                assert(before.announced.dom().contains(keys[k]));
            }
        }
        let list = self.snapshot();
        self.sealed = true;
        proof {
            use_type_invariant(&*self);
            law_sealed_set_is_exact(self@);
        }
        Ok(list)
    }
}

/// Sealing is idempotent: a sealed set stays as it is, and is complete.
pub proof fn law_seal_is_idempotent(endpoints: EndpointsView)
    requires
        endpoints.wf(),
    ensures
        after_seal(after_seal(endpoints)) == after_seal(endpoints),
        after_seal(endpoints).sealed ==> after_seal(endpoints).complete(),
        after_seal(endpoints).announced == endpoints.announced,
{
}

/// In a sealed set every declared label is announced, and nothing else is.
pub proof fn law_sealed_set_is_exact(endpoints: EndpointsView)
    requires
        endpoints.wf(),
        endpoints.sealed,
    ensures
        endpoints.announced.dom() == endpoints.declared,
{
    assert(endpoints.announced.dom() =~= endpoints.declared);
}

/// A sealed set never changes again: every announcement to it is refused.
pub proof fn law_sealed_set_is_final(endpoints: EndpointsView, label: Seq<char>, binding: BindingView)
    requires
        endpoints.sealed,
    ensures
        announcement_refusal(endpoints, label, binding) is Some,
        after_announcement(endpoints, label, binding) == endpoints,
{
}

/// The first announcement of a label stands: no later one replaces it.
pub proof fn law_first_announcement_stands(
    endpoints: EndpointsView,
    label: Seq<char>,
    binding: BindingView,
    later: BindingView,
)
    requires
        announcement_refusal(endpoints, label, binding) is None,
    ensures
        ({
            let after = after_announcement(endpoints, label, binding);
            &&& after.announced[label] == binding
            &&& announcement_refusal(after, label, later) == Some(
                ErrorView::EndpointAlreadyAnnounced { label },
            )
            &&& after_announcement(after, label, later) == after
        }),
{
}

/// An announcement or a seal keeps what holds of the endpoints at any time, and
/// never takes an announced label back.
pub proof fn law_endpoints_only_grow(endpoints: EndpointsView, label: Seq<char>, binding: BindingView)
    requires
        endpoints.wf(),
    ensures
        after_announcement(endpoints, label, binding).wf(),
        after_seal(endpoints).wf(),
        endpoints.announced.submap_of(after_announcement(endpoints, label, binding).announced),
        after_announcement(endpoints, label, binding).declared == endpoints.declared,
{
}

/// A scheme is a lowercase letter of ASCII, followed by lowercase letters, digits, and
/// the characters `+`, `-` and `.`; a path is empty or begins with `/`.
pub proof fn law_scheme_and_path(scheme: Seq<char>, path: Seq<char>)
    ensures
        scheme_token(scheme) <==> scheme.len() > 0 && 97 <= scheme[0] as int <= 122 && forall|i: int|
            0 <= i < scheme.len() ==> {
                let code = (#[trigger] scheme[i]) as int;
                ||| 97 <= code <= 122
                ||| 48 <= code <= 57
                ||| code == 43
                ||| code == 45
                ||| code == 46
            },
        rooted(path) <==> path.len() == 0 || path[0] as int == 47,
{
    if scheme_token(scheme) {
        assert forall|i: int| 0 <= i < scheme.len() implies {
            let code = (#[trigger] scheme[i]) as int;
            ||| 97 <= code <= 122
            ||| 48 <= code <= 57
            ||| code == 43
            ||| code == 45
            ||| code == 46
        } by {
            if i > 0 {
                assert(scheme_char(scheme[i]));
            }
        }
    }
}

/// A binding is refused exactly when its scheme is no scheme or its path does not
/// begin with `/`; the scheme is looked at first, and what is wrong is quoted.
pub proof fn law_malformed_binding_is_refused(binding: BindingView)
    ensures
        binding_refusal(binding) is None <==> scheme_token(binding.scheme) && rooted(binding.path),
        !scheme_token(binding.scheme) ==> binding_refusal(binding) == Some(
            "scheme `"@ + binding.scheme
                + "` is not a URI scheme token (lowercase letters, digits, `+`, `.` and `-`, starting with a letter)"@,
        ),
        scheme_token(binding.scheme) && !rooted(binding.path) ==> binding_refusal(binding) == Some(
            "path `"@ + binding.path + "` must be empty or start with `/`"@,
        ),
{
}

/// A socket is announced exactly when its label is declared, setup is not over, the
/// label is not taken and the binding is well formed. Then the label, and no other,
/// has the binding; else nothing changes and the first of these that fails is the
/// error.
pub proof fn law_announcement_takes_a_free_declared_label(
    endpoints: EndpointsView,
    label: Seq<char>,
    binding: BindingView,
)
    ensures
        ({
            let after = after_announcement(endpoints, label, binding);
            match announcement_refusal(endpoints, label, binding) {
                None => endpoints.declared.contains(label) && !endpoints.sealed
                    && !endpoints.announced.dom().contains(label) && binding_refusal(binding) is None
                    && after.announced == endpoints.announced.insert(label, binding),
                Some(error) => after.announced == endpoints.announced && if !endpoints.declared.contains(
                    label,
                ) {
                    error == (ErrorView::UndeclaredEndpoint { label })
                } else if endpoints.sealed {
                    error == (ErrorView::EndpointsSealed { label })
                } else if endpoints.announced.dom().contains(label) {
                    error == (ErrorView::EndpointAlreadyAnnounced { label })
                } else {
                    binding_refusal(binding) matches Some(reason) && error == (
                    ErrorView::InvalidEndpointBinding { label, reason })
                },
            }
        }),
        after_announcement(endpoints, label, binding).declared == endpoints.declared,
        after_announcement(endpoints, label, binding).sealed == endpoints.sealed,
{
}

/// A seal succeeds exactly when every declared label is announced. It changes nothing
/// but that the announcements are over; and when it does not succeed it changes
/// nothing at all, and the lowest declared label that is missing is the error.
pub proof fn law_seal_needs_every_declared_label(
    endpoints: EndpointsView,
    label: Seq<char>,
    other: Seq<char>,
)
    ensures
        ({
            let complete = forall|named: Seq<char>| #[trigger]
                endpoints.declared.contains(named) ==> endpoints.announced.dom().contains(named);
            &&& endpoints.complete() <==> complete
            &&& complete ==> after_seal(endpoints).sealed
            &&& !complete ==> after_seal(endpoints) == endpoints
            &&& after_seal(endpoints).declared == endpoints.declared
            &&& after_seal(endpoints).announced == endpoints.announced
            &&& first_missing(endpoints, label) ==> !complete && endpoints.declared.contains(label)
                && !endpoints.announced.dom().contains(label) && (endpoints.declared.contains(other)
                && !endpoints.announced.dom().contains(other) ==> !text::text_less(other, label))
        }),
{
}

/// The list of announced endpoints has every announced label once, in ascending order,
/// with the binding announced for it, and no other.
pub proof fn law_announced_endpoints_are_listed(
    list: Seq<AnnouncedEndpoint>,
    announced: Map<Seq<char>, BindingView>,
    i: int,
    j: int,
    label: Seq<char>,
)
    requires
        lists_announced(list, announced),
    ensures
        0 <= i < list.len() ==> announced.dom().contains(list[i].label@) && list[i].binding@
            == announced[list[i].label@],
        0 <= i < j < list.len() ==> text::text_less(list[i].label@, list[j].label@),
        announced.dom().contains(label) ==> exists|k: int|
            0 <= k < list.len() && (#[trigger] list[k]).label@ == label,
{
}

/// The declared labels are those of the list, each counted once.
pub proof fn law_declared_labels(labels: Seq<String>, label: Seq<char>)
    ensures
        label_set(labels).contains(label) <==> exists|i: int|
            0 <= i < labels.len() && (#[trigger] labels[i])@ == label,
{
    let names = text::texts(labels);
    if label_set(labels).contains(label) {
        let i = choose|i: int| 0 <= i < names.len() && names[i] == label;
        assert(labels[i]@ == label);
    }
    if exists|i: int| 0 <= i < labels.len() && (#[trigger] labels[i])@ == label {
        let i = choose|i: int| 0 <= i < labels.len() && (#[trigger] labels[i])@ == label;
        assert(names[i] == label);
    }
}

/// A binding is seen as it is.
pub proof fn law_binding_is_seen_as_it_is(binding: EndpointBinding)
    ensures
        binding@.scheme == binding.scheme@,
        binding@.host == binding.address.host@,
        binding@.port == binding.address.port,
        binding@.path == binding.path@,
{
}

} // verus!
