//! The visibility policy: which delivery options a cart's shopper must not see.
use vstd::prelude::*;
use vstd::string::*;

use crate::suffix::{extract_token, token_under, TokenRule};

verus! {

/// Name of the cart attribute through which the storefront passes the
/// shopper's assigned variant.
pub const SHIPPING_VARIANT_ATTRIBUTE: &'static str = "_ab_shipping_suffix";

/// The cart attribute that carries the assigned variant.
pub struct Attribute {
    pub value: Option<String>,
}

/// One line item of the cart.
pub struct CartLine {
    /// The item is bought on a recurring (subscription) plan.
    pub subscription: bool,
}

/// A shipping choice offered at checkout.
pub struct DeliveryOption {
    /// Human-written display title; the only field that may carry a tag.
    pub title: String,
    /// Opaque identifier, echoed back in directives and never parsed.
    pub handle: String,
}

/// The delivery options offered for one group of the cart's items.
pub struct DeliveryGroup {
    pub delivery_options: Vec<DeliveryOption>,
}

/// The snapshot of a cart that one decision is made over.
pub struct Cart {
    /// The variant attribute, when the cart has one.
    pub attribute: Option<Attribute>,
    pub lines: Vec<CartLine>,
    pub delivery_groups: Vec<DeliveryGroup>,
}

/// A directive to remove one delivery option from the shopper's choices.
pub struct HideOperation {
    pub delivery_option_handle: String,
}

/// The directives of one decision, in the order the options were met.
pub struct FunctionRunResult {
    pub operations: Vec<HideOperation>,
}

/// How a decision is made: which tags count, and whether subscription carts
/// are left out of the experiment.
pub struct FilterPolicy {
    pub tokens: TokenRule,
    pub exempt_subscriptions: bool,
}

/// The content of a delivery option.
pub struct OptionModel {
    pub title: Seq<char>,
    pub handle: Seq<char>,
}

/// The content of a cart.
pub struct CartModel {
    /// `None`: no attribute; `Some(None)`: the attribute has no value.
    pub attribute: Option<Option<Seq<char>>>,
    /// For each line item, whether it is a subscription purchase.
    pub lines: Seq<bool>,
    pub delivery_groups: Seq<Seq<OptionModel>>,
}

impl View for Attribute {
    type V = Option<Seq<char>>;

    open spec fn view(&self) -> Option<Seq<char>> {
        match self.value {
            Some(v) => Some(v@),
            None => None,
        }
    }
}

impl View for DeliveryOption {
    type V = OptionModel;

    open spec fn view(&self) -> OptionModel {
        OptionModel { title: self.title@, handle: self.handle@ }
    }
}

impl View for DeliveryGroup {
    type V = Seq<OptionModel>;

    open spec fn view(&self) -> Seq<OptionModel> {
        self.delivery_options@.map_values(|o: DeliveryOption| o@)
    }
}

impl View for Cart {
    type V = CartModel;

    open spec fn view(&self) -> CartModel {
        CartModel {
            attribute: match self.attribute {
                Some(a) => Some(a@),
                None => None,
            },
            lines: self.lines@.map_values(|l: CartLine| l.subscription),
            delivery_groups: self.delivery_groups@.map_values(|g: DeliveryGroup| g@),
        }
    }
}

impl View for FunctionRunResult {
    type V = Seq<Seq<char>>;

    /// The handles of the hidden options, in order.
    open spec fn view(&self) -> Seq<Seq<char>> {
        handles_of(self.operations@)
    }
}

/// The handles that `ops` refer to, in order.
pub open spec fn handles_of(ops: Seq<HideOperation>) -> Seq<Seq<char>> {
    ops.map_values(|o: HideOperation| o.delivery_option_handle@)
}

/// The variant assigned to the cart: the attribute's value, unless the
/// attribute or its value is missing or the value is empty.
pub open spec fn assigned_variant(cart: CartModel) -> Option<Seq<char>> {
    match cart.attribute {
        Some(Some(v)) => if v.len() > 0 {
            Some(v)
        } else {
            None
        },
        _ => None,
    }
}

/// Some line item of the cart is a subscription purchase.
pub open spec fn has_subscription(cart: CartModel) -> bool {
    exists|i: int| 0 <= i < cart.lines.len() && cart.lines[i]
}

/// The policy leaves this cart out of the experiment.
pub open spec fn is_exempt(policy: FilterPolicy, cart: CartModel) -> bool {
    policy.exempt_subscriptions && has_subscription(cart)
}

/// An option with `title` is hidden from a shopper assigned `variant`: it
/// carries a tag that differs from the variant.
pub open spec fn hides(tokens: TokenRule, title: Seq<char>, variant: Seq<char>) -> bool {
    match token_under(tokens, title) {
        Some(c) => variant != seq![c],
        None => false,
    }
}

/// Every option of every group, groups first, then options within a group.
pub open spec fn traversal(groups: Seq<Seq<OptionModel>>) -> Seq<OptionModel>
    decreases groups.len(),
{
    if groups.len() == 0 {
        Seq::empty()
    } else {
        traversal(groups.drop_last()) + groups.last()
    }
}

/// The handles of the options in `options` that are hidden from `variant`,
/// in their order.
pub open spec fn hidden_handles(
    tokens: TokenRule,
    options: Seq<OptionModel>,
    variant: Seq<char>,
) -> Seq<Seq<char>>
    decreases options.len(),
{
    if options.len() == 0 {
        Seq::empty()
    } else {
        let earlier = hidden_handles(tokens, options.drop_last(), variant);
        if hides(tokens, options.last().title, variant) {
            earlier.push(options.last().handle)
        } else {
            earlier
        }
    }
}

/// The handles that a decision on `cart` hides: none for a cart without an
/// assigned variant or exempt from the experiment, else every tagged option
/// whose tag differs from the variant.
pub open spec fn decision(policy: FilterPolicy, cart: CartModel) -> Seq<Seq<char>> {
    match assigned_variant(cart) {
        None => Seq::empty(),
        Some(v) => if is_exempt(policy, cart) {
            Seq::empty()
        } else {
            hidden_handles(policy.tokens, traversal(cart.delivery_groups), v)
        },
    }
}

/// Whether a tag `c` differs from `variant`.
fn token_differs(c: char, variant: &str) -> (r: bool)
    ensures
        r == (variant@ != seq![c]),
{
    if variant.unicode_len() == 1 {
        let v = variant.get_char(0);
        if v == c {
            assert(variant@ =~= seq![c]);
            false
        } else {
            assert(variant@[0] != seq![c][0]);
            true
        }
    } else {
        assert(variant@.len() != seq![c].len());
        true
    }
}

impl FilterPolicy {
    /// Any alphanumeric tag counts, and subscription carts are exempt.
    pub fn with_subscription_exemption() -> (r: FilterPolicy)
        ensures
            r.tokens == TokenRule::AnyAlphanumeric,
            r.exempt_subscriptions,
    {
        FilterPolicy { tokens: TokenRule::AnyAlphanumeric, exempt_subscriptions: true }
    }

    /// Only the tags `A`..`D` count, and no cart is exempt.
    pub fn letters_a_to_d() -> (r: FilterPolicy)
        ensures
            forall|c: char| r.tokens.admits(c) <==> crate::suffix::is_letter_a_to_d(c),
            !r.exempt_subscriptions,
    {
        FilterPolicy { tokens: TokenRule::letters_a_to_d(), exempt_subscriptions: false }
    }

    /// Whether an option titled `title` is hidden from a shopper assigned
    /// `variant`.
    pub fn hides_option(&self, title: &str, variant: &str) -> (r: bool)
        ensures
            r == hides(self.tokens, title@, variant@),
    {
        match extract_token(title, &self.tokens) {
            Some(c) => token_differs(c, variant),
            None => false,
        }
    }
}

/// Whether an option titled `title` is hidden from a shopper assigned
/// `variant`, any alphanumeric tag counting.
pub fn should_hide_option(title: &str, variant: &str) -> (r: bool)
    ensures
        r == hides(TokenRule::AnyAlphanumeric, title@, variant@),
{
    match crate::suffix::extract_variant_suffix(title) {
        Some(c) => token_differs(c, variant),
        None => false,
    }
}

/// The directives depend on nothing but the cart's content: two carts with
/// the same content get the same directives, on every call.
pub proof fn lemma_decision_depends_on_content(policy: FilterPolicy, a: Cart, b: Cart)
    requires
        a@ == b@,
    ensures
        decision(policy, a@) == decision(policy, b@),
{
}

/// A cart with no assigned variant (no attribute, or an empty value) gets no
/// directives, whatever its options are titled.
pub proof fn lemma_unassigned_cart_hides_nothing(policy: FilterPolicy, cart: CartModel)
    requires
        assigned_variant(cart) is None,
    ensures
        decision(policy, cart) == Seq::<Seq<char>>::empty(),
{
}

/// Under a policy that exempts subscriptions, a cart holding a subscription
/// line item gets no directives, even when a variant is assigned.
pub proof fn lemma_subscription_cart_hides_nothing(
    policy: FilterPolicy,
    cart: CartModel,
    line: int,
)
    requires
        policy.exempt_subscriptions,
        0 <= line < cart.lines.len(),
        cart.lines[line],
    ensures
        decision(policy, cart) == Seq::<Seq<char>>::empty(),
{
    assert(has_subscription(cart));
}

/// The positions in `options` of the options hidden from `variant`: strictly
/// increasing, each one hidden and matched by its handle, and every hidden
/// option among them.
pub proof fn lemma_hidden_positions(
    tokens: TokenRule,
    options: Seq<OptionModel>,
    variant: Seq<char>,
) -> (idx: Seq<int>)
    ensures
        idx.len() == hidden_handles(tokens, options, variant).len(),
        forall|k: int|
            0 <= k < idx.len() ==> 0 <= #[trigger] idx[k] < options.len() && hides(
                tokens,
                options[idx[k]].title,
                variant,
            ) && hidden_handles(tokens, options, variant)[k] == options[idx[k]].handle,
        forall|k: int, l: int| 0 <= k < l < idx.len() ==> idx[k] < idx[l],
        forall|p: int|
            0 <= p < options.len() && hides(tokens, #[trigger] options[p].title, variant)
                ==> idx.contains(p),
    decreases options.len(),
{
    if options.len() == 0 {
        Seq::empty()
    } else {
        let last = options.len() - 1;
        let earlier = lemma_hidden_positions(tokens, options.drop_last(), variant);
        let idx = if hides(tokens, options.last().title, variant) {
            earlier.push(last)
        } else {
            earlier
        };
        assert forall|p: int|
            0 <= p < options.len() && hides(tokens, #[trigger] options[p].title, variant)
                implies idx.contains(p) by {
            if p < last {
                assert(options.drop_last()[p] == options[p]);
                let k = choose|k: int| 0 <= k < earlier.len() && earlier[k] == p;
                assert(idx[k] == p);
            } else {
                assert(idx[idx.len() - 1] == p);
            }
        }
        idx
    }
}

/// The directives follow the traversal order of the cart's options (groups
/// in order, then options within a group): the returned positions into that
/// traversal are strictly increasing, each names a hidden option by its
/// handle, and every option the decision hides is among them.
pub proof fn lemma_directives_follow_traversal(policy: FilterPolicy, cart: CartModel) -> (idx: Seq<
    int,
>)
    ensures
        idx.len() == decision(policy, cart).len(),
        forall|k: int|
            0 <= k < idx.len() ==> 0 <= #[trigger] idx[k] < traversal(cart.delivery_groups).len()
                && decision(policy, cart)[k] == traversal(cart.delivery_groups)[idx[k]].handle,
        forall|k: int, l: int| 0 <= k < l < idx.len() ==> idx[k] < idx[l],
        assigned_variant(cart) is Some && !is_exempt(policy, cart) ==> forall|p: int|
            0 <= p < traversal(cart.delivery_groups).len() && hides(
                policy.tokens,
                #[trigger] traversal(cart.delivery_groups)[p].title,
                assigned_variant(cart)->0,
            ) ==> idx.contains(p),
{
    match assigned_variant(cart) {
        None => Seq::empty(),
        Some(v) => if is_exempt(policy, cart) {
            Seq::empty()
        } else {
            lemma_hidden_positions(policy.tokens, traversal(cart.delivery_groups), v)
        },
    }
}

/// The cart's assigned variant, if it has one.
fn variant_of(cart: &Cart) -> (r: Option<&String>)
    ensures
        match assigned_variant(cart@) {
            None => r is None,
            Some(v) => r is Some && r->0@ == v,
        },
{
    match &cart.attribute {
        Some(a) => match &a.value {
            Some(v) => if v.as_str().is_empty() {
                None
            } else {
                Some(v)
            },
            None => None,
        },
        None => None,
    }
}

/// Whether some line item of the cart is a subscription purchase.
fn cart_has_subscription(cart: &Cart) -> (r: bool)
    ensures
        r == has_subscription(cart@),
{
    let mut i: usize = 0;
    while i < cart.lines.len()
        invariant
            i <= cart.lines.len(),
            forall|j: int| 0 <= j < i ==> !cart@.lines[j],
        decreases cart.lines.len() - i,
    {
        if cart.lines[i].subscription {
            assert(cart@.lines[i as int]);
            return true;
        }
        i += 1;
    }
    false
}

/// Decides which delivery options of `cart` to hide: with no assigned variant,
/// or when the policy exempts the cart, nothing; else each option whose tag
/// differs from the assigned variant, in group order, then option order.
pub fn run(cart: &Cart, policy: &FilterPolicy) -> (r: FunctionRunResult)
    ensures
        r@ == decision(*policy, cart@),
{
    let variant = match variant_of(cart) {
        Some(v) => v,
        None => {
            return FunctionRunResult { operations: Vec::new() };
        },
    };
    if policy.exempt_subscriptions && cart_has_subscription(cart) {
        return FunctionRunResult { operations: Vec::new() };
    }
    let ghost v = variant@;
    let ghost groups = cart@.delivery_groups;
    let mut operations: Vec<HideOperation> = Vec::new();
    let mut g: usize = 0;
    while g < cart.delivery_groups.len()
        invariant
            g <= cart.delivery_groups.len(),
            groups == cart@.delivery_groups,
            variant@ == v,
            handles_of(operations@) == hidden_handles(
                policy.tokens,
                traversal(groups.take(g as int)),
                v,
            ),
        decreases cart.delivery_groups.len() - g,
    {
        let group = &cart.delivery_groups[g];
        let ghost before = traversal(groups.take(g as int));
        assert(group@ == groups[g as int]);
        let mut k: usize = 0;
        while k < group.delivery_options.len()
            invariant
                k <= group.delivery_options.len(),
                variant@ == v,
                handles_of(operations@) == hidden_handles(
                    policy.tokens,
                    before + group@.take(k as int),
                    v,
                ),
            decreases group.delivery_options.len() - k,
        {
            let option = &group.delivery_options[k];
            let ghost seen = before + group@.take(k as int);
            let ghost next = before + group@.take(k + 1);
            assert(next.drop_last() =~= seen);
            assert(next.last() == option@);
            let ghost old_ops = operations@;
            if policy.hides_option(option.title.as_str(), variant.as_str()) {
                operations.push(HideOperation { delivery_option_handle: option.handle.clone() });
                assert(handles_of(operations@) =~= handles_of(old_ops).push(option.handle@));
            }
            k += 1;
        }
        assert(groups.take(g + 1).drop_last() =~= groups.take(g as int));
        assert(group@.take(group.delivery_options.len() as int) =~= group@);
        g += 1;
    }
    assert(groups.take(g as int) =~= groups);
    FunctionRunResult { operations }
}

} // verus!
