//! The scripts the client plays in a browser against the Alfahosting
//! customer area: logging in, opening the DNS settings of a contract, and
//! adding or removing the TXT record of a DNS-01 challenge.
//!
//! A script is a list of [`BrowserStep`]s that the caller performs in
//! order on one browser tab. Elements are located by a `Find` step and then
//! acted upon under the selector they were found with.
use vstd::prelude::*;

verus! {

broadcast use vstd::string::group_string_axioms;

/// One action on the browser tab.
#[derive(Debug, Clone, PartialEq, Eq)]
pub enum BrowserStep {
    /// Load this URL.
    Navigate(String),
    /// Wait until the tab finished navigating.
    WaitUntilNavigated,
    /// Locate the element matching this CSS selector; the step fails where
    /// there is none. Later steps refer to it by the same selector.
    Find(String),
    /// Click the element located under this selector.
    Click(String),
    /// Type the text into the element located under this selector.
    TypeInto(String, String),
    /// Scroll the element located under this selector into view.
    ScrollIntoView(String),
    /// Call the JavaScript function on the element located under this
    /// selector.
    CallJs(String, String),
    /// Press this key on the tab.
    PressKey(String),
    /// Wait this many milliseconds plus a random share of the second
    /// number (see [`pick_delay`]).
    Pause(u64, u64),
    /// Fail with the message where an element matches the selector.
    FailIfPresent(String, String),
}

/// A browser step with its texts as sequences of characters.
pub enum StepView {
    Navigate(Seq<char>),
    WaitUntilNavigated,
    Find(Seq<char>),
    Click(Seq<char>),
    TypeInto(Seq<char>, Seq<char>),
    ScrollIntoView(Seq<char>),
    CallJs(Seq<char>, Seq<char>),
    PressKey(Seq<char>),
    Pause(u64, u64),
    FailIfPresent(Seq<char>, Seq<char>),
}

impl View for BrowserStep {
    type V = StepView;

    open spec fn view(&self) -> StepView {
        match self {
            BrowserStep::Navigate(url) => StepView::Navigate(url@),
            BrowserStep::WaitUntilNavigated => StepView::WaitUntilNavigated,
            BrowserStep::Find(sel) => StepView::Find(sel@),
            BrowserStep::Click(sel) => StepView::Click(sel@),
            BrowserStep::TypeInto(sel, text) => StepView::TypeInto(sel@, text@),
            BrowserStep::ScrollIntoView(sel) => StepView::ScrollIntoView(sel@),
            BrowserStep::CallJs(sel, js) => StepView::CallJs(sel@, js@),
            BrowserStep::PressKey(key) => StepView::PressKey(key@),
            BrowserStep::Pause(base, spread) => StepView::Pause(*base, *spread),
            BrowserStep::FailIfPresent(sel, msg) => StepView::FailIfPresent(sel@, msg@),
        }
    }
}

/// The steps of a script, viewed.
pub open spec fn steps_view(v: Seq<BrowserStep>) -> Seq<StepView> {
    v.map_values(|s: BrowserStep| s@)
}

/// The selector of the located element that a step acts upon, if any.
pub open spec fn element_of(s: StepView) -> Option<Seq<char>> {
    match s {
        StepView::Click(sel) => Some(sel),
        StepView::TypeInto(sel, _) => Some(sel),
        StepView::ScrollIntoView(sel) => Some(sel),
        StepView::CallJs(sel, _) => Some(sel),
        _ => None,
    }
}

/// Some step locates an element under `sel`.
pub open spec fn found_in(steps: Seq<StepView>, sel: Seq<char>) -> bool {
    exists|j: int| 0 <= j < steps.len() && steps[j] == StepView::Find(sel)
}

/// Every step that acts upon an element comes after a step that locates
/// an element under the same selector.
pub open spec fn well_bound(steps: Seq<StepView>) -> bool {
    forall|i: int|
        0 <= i < steps.len() && (#[trigger] element_of(steps[i])) is Some ==> found_in(
            steps.take(i),
            element_of(steps[i])->0,
        )
}

/// Scripts that locate their elements before use can be played one after
/// the other.
pub proof fn lemma_well_bound_concat(a: Seq<StepView>, b: Seq<StepView>)
    requires
        well_bound(a),
        well_bound(b),
    ensures
        well_bound(a + b),
{
    let ab = a + b;
    assert forall|i: int| 0 <= i < ab.len() && (#[trigger] element_of(ab[i])) is Some implies found_in(
        ab.take(i),
        element_of(ab[i])->0,
    ) by {
        let sel = element_of(ab[i])->0;
        if i < a.len() {
            assert(ab[i] == a[i]);
            assert(element_of(a[i]) is Some);
            let j = choose|j: int| 0 <= j < a.take(i).len() && a.take(i)[j] == StepView::Find(sel);
            assert(ab.take(i)[j] == a.take(i)[j]);
        } else {
            let k = i - a.len();
            assert(ab[i] == b[k]);
            assert(element_of(b[k]) is Some);
            let j = choose|j: int| 0 <= j < b.take(k).len() && b.take(k)[j] == StepView::Find(sel);
            assert(ab.take(i)[a.len() + j] == b.take(k)[j]);
        }
    }
}

fn append_step(v: &mut Vec<BrowserStep>, s: BrowserStep)
    requires
        well_bound(steps_view(old(v)@)),
        element_of(s@) is Some ==> found_in(steps_view(old(v)@), element_of(s@)->0),
    ensures
        steps_view(final(v)@) == steps_view(old(v)@).push(s@),
        well_bound(steps_view(final(v)@)),
        forall|sel: Seq<char>|
            found_in(steps_view(old(v)@), sel) ==> #[trigger] found_in(steps_view(final(v)@), sel),
        s@ matches StepView::Find(sel) ==> found_in(steps_view(final(v)@), sel),
{
    let ghost before = steps_view(v@);
    let ghost x = s@;
    v.push(s);
    let ghost after = steps_view(v@);
    assert(after =~= before.push(x));
    assert forall|i: int| 0 <= i < after.len() && (#[trigger] element_of(after[i])) is Some implies found_in(
        after.take(i),
        element_of(after[i])->0,
    ) by {
        let sel = element_of(after[i])->0;
        if i < before.len() {
            assert(after[i] == before[i]);
            assert(element_of(before[i]) is Some);
            assert(after.take(i) =~= before.take(i));
        } else {
            assert(after.take(i) =~= before);
        }
    }
    assert forall|sel: Seq<char>| found_in(before, sel) implies #[trigger] found_in(after, sel) by {
        let j = choose|j: int| 0 <= j < before.len() && before[j] == StepView::Find(sel);
        assert(after[j] == before[j]);
    }
    assert(after[before.len() as int] == x);
}

fn append_script(v: &mut Vec<BrowserStep>, mut other: Vec<BrowserStep>)
    requires
        well_bound(steps_view(old(v)@)),
        well_bound(steps_view(other@)),
    ensures
        steps_view(final(v)@) == steps_view(old(v)@) + steps_view(other@),
        well_bound(steps_view(final(v)@)),
        forall|sel: Seq<char>|
            found_in(steps_view(old(v)@), sel) ==> #[trigger] found_in(steps_view(final(v)@), sel),
{
    let ghost a = steps_view(v@);
    let ghost b = steps_view(other@);
    let ghost before = v@;
    let ghost tail = other@;
    v.append(&mut other);
    assert(steps_view(v@) =~= a + b) by {
        assert(v@ =~= before + tail);
    }
    proof {
        lemma_well_bound_concat(a, b);
    }
    assert forall|sel: Seq<char>| found_in(a, sel) implies #[trigger] found_in(steps_view(v@), sel) by {
        let j = choose|j: int| 0 <= j < a.len() && a[j] == StepView::Find(sel);
        assert((a + b)[j] == a[j]);
    }
}

fn concat2(a: &str, b: &str) -> (r: String)
    ensures
        r@ == a@ + b@,
{
    let mut s = String::from_str(a);
    s.append(b);
    s
}

fn concat3(a: &str, b: &str, c: &str) -> (r: String)
    ensures
        r@ == a@ + b@ + c@,
{
    let mut s = String::from_str(a);
    s.append(b);
    s.append(c);
    s
}

fn text(s: &str) -> (r: String)
    ensures
        r@ == s@,
{
    String::from_str(s)
}

/// Calls `rand::random::<u64>()`, which draws from the thread-local
/// generator; nothing is stated of the value drawn. The crate panics only
/// where the operating system's random source fails while seeding, which
/// no argument can rule out.
#[verifier::external_body]
fn random_u64() -> u64 {
    rand::random::<u64>()
}

/// The length of a pause: `base` milliseconds where `spread` is zero, else
/// `base` plus a random remainder below `spread`.
pub fn pick_delay(base: u64, spread: u64) -> (r: u64)
    requires
        base + spread <= u64::MAX,
    ensures
        spread == 0 ==> r == base,
        spread > 0 ==> base <= r < base + spread,
{
    if spread == 0 {
        base
    } else {
        base + jitter(random_u64(), spread)
    }
}

/// The share of a random draw added to a pause.
pub fn jitter(draw: u64, spread: u64) -> (r: u64)
    requires
        spread > 0,
    ensures
        r == draw % spread,
        r < spread,
{
    draw % spread
}

/// The page with the login form.
pub open spec fn login_url() -> Seq<char> {
    "https://alfahosting.de/kunden-login/"@
}

/// The button that accepts the cookie banner.
pub open spec fn cookie_button() -> Seq<char> {
    "[data-cookiefirst-button=\"primary\"]"@
}

/// The selector of the error shown after a refused login.
pub open spec fn login_error() -> Seq<char> {
    "#login.errorSection"@
}

/// The selector of the form that asks for the mailed login code.
pub open spec fn protection_form() -> Seq<char> {
    "#loginProtectionForm"@
}

/// The selector of the form shown when a login needs the mailed code.
pub fn login_protection_selector() -> (r: String)
    ensures
        r@ == protection_form(),
{
    text("#loginProtectionForm")
}

/// The selector of the error shown when a login or its code is refused.
pub fn login_error_selector() -> (r: String)
    ensures
        r@ == login_error(),
{
    text("#login.errorSection")
}

/// The script that logs into the customer area.
pub open spec fn signin_steps(username: Seq<char>, password: Seq<char>) -> Seq<StepView> {
    seq![
        StepView::Navigate(login_url()),
        StepView::WaitUntilNavigated,
        StepView::Find(cookie_button()),
        StepView::Click(cookie_button()),
        StepView::Pause(5000, 3000),
        StepView::Find("#loginForm"@),
        StepView::Find("#username"@),
        StepView::Find("#password"@),
        StepView::Find("#loginForm input[type=\"submit\"]"@),
        StepView::PressKey("PageDown"@),
        StepView::Pause(500, 0),
        StepView::ScrollIntoView("#loginForm"@),
        StepView::TypeInto("#username"@, username),
        StepView::TypeInto("#password"@, password),
        StepView::Click("#loginForm input[type=\"submit\"]"@),
        StepView::Pause(5000, 5000),
        StepView::FailIfPresent(login_error(), "The provided username or password was not correct."@),
    ]
}

/// Logs into the customer area with the configured credentials, and fails
/// where the login is refused.
pub fn signin_script(username: &str, password: &str) -> (r: Vec<BrowserStep>)
    ensures
        steps_view(r@) == signin_steps(username@, password@),
        well_bound(steps_view(r@)),
{
    let mut v: Vec<BrowserStep> = Vec::new();
    assert(well_bound(steps_view(v@)));
    append_step(&mut v, BrowserStep::Navigate(text("https://alfahosting.de/kunden-login/")));
    append_step(&mut v, BrowserStep::WaitUntilNavigated);
    append_step(&mut v, BrowserStep::Find(text("[data-cookiefirst-button=\"primary\"]")));
    append_step(&mut v, BrowserStep::Click(text("[data-cookiefirst-button=\"primary\"]")));
    append_step(&mut v, BrowserStep::Pause(5000, 3000));
    append_step(&mut v, BrowserStep::Find(text("#loginForm")));
    append_step(&mut v, BrowserStep::Find(text("#username")));
    append_step(&mut v, BrowserStep::Find(text("#password")));
    append_step(&mut v, BrowserStep::Find(text("#loginForm input[type=\"submit\"]")));
    append_step(&mut v, BrowserStep::PressKey(text("PageDown")));
    append_step(&mut v, BrowserStep::Pause(500, 0));
    append_step(&mut v, BrowserStep::ScrollIntoView(text("#loginForm")));
    append_step(&mut v, BrowserStep::TypeInto(text("#username"), text(username)));
    append_step(&mut v, BrowserStep::TypeInto(text("#password"), text(password)));
    append_step(&mut v, BrowserStep::Click(text("#loginForm input[type=\"submit\"]")));
    append_step(&mut v, BrowserStep::Pause(5000, 5000));
    append_step(
        &mut v,
        BrowserStep::FailIfPresent(
            text("#login.errorSection"),
            text("The provided username or password was not correct."),
        ),
    );
    assert(steps_view(v@) =~= signin_steps(username@, password@));
    v
}


/// The script that answers the login protection with the mailed code.
pub open spec fn protection_steps(code: Seq<char>) -> Seq<StepView> {
    seq![
        StepView::Find(protection_form()),
        StepView::Find("#loginProtectionForm #code"@),
        StepView::Find("#loginProtectionForm input[type=\"submit\"]"@),
        StepView::PressKey("PageDown"@),
        StepView::Pause(500, 500),
        StepView::ScrollIntoView(protection_form()),
        StepView::TypeInto("#loginProtectionForm #code"@, code),
        StepView::Click("#loginProtectionForm input[type=\"submit\"]"@),
        StepView::Pause(5000, 5000),
        StepView::FailIfPresent(login_error(), "The provided code was incorrect."@),
    ]
}

/// Enters the mailed code into the login protection form, and fails where
/// the code is refused.
pub fn solve_login_protection_script(code: &str) -> (r: Vec<BrowserStep>)
    ensures
        steps_view(r@) == protection_steps(code@),
        well_bound(steps_view(r@)),
{
    let mut v: Vec<BrowserStep> = Vec::new();
    assert(well_bound(steps_view(v@)));
    append_step(&mut v, BrowserStep::Find(text("#loginProtectionForm")));
    append_step(&mut v, BrowserStep::Find(text("#loginProtectionForm #code")));
    append_step(&mut v, BrowserStep::Find(text("#loginProtectionForm input[type=\"submit\"]")));
    append_step(&mut v, BrowserStep::PressKey(text("PageDown")));
    append_step(&mut v, BrowserStep::Pause(500, 500));
    append_step(&mut v, BrowserStep::ScrollIntoView(text("#loginProtectionForm")));
    append_step(&mut v, BrowserStep::TypeInto(text("#loginProtectionForm #code"), text(code)));
    append_step(&mut v, BrowserStep::Click(text("#loginProtectionForm input[type=\"submit\"]")));
    append_step(&mut v, BrowserStep::Pause(5000, 5000));
    append_step(
        &mut v,
        BrowserStep::FailIfPresent(text("#login.errorSection"), text("The provided code was incorrect.")),
    );
    assert(steps_view(v@) =~= protection_steps(code@));
    v
}

/// The page of the contract `ipid` in the customer area.
pub open spec fn contract_url(ipid: Seq<char>) -> Seq<char> {
    "https://secure.alfahosting.de/kunden/index.php/Kundencenter:Tarife?ipid="@ + ipid
}

/// The script that opens the DNS settings of a contract.
pub open spec fn dns_steps(ipid: Seq<char>) -> Seq<StepView> {
    seq![
        StepView::Navigate(contract_url(ipid)),
        StepView::WaitUntilNavigated,
        StepView::Pause(2000, 3000),
        StepView::Navigate("https://secure.alfahosting.de/kunden/index.php/Kundencenter:Tarife/Details#dns"@),
        StepView::Pause(2000, 3000),
        StepView::Find("#dns_layer a"@),
        StepView::Click("#dns_layer a"@),
        StepView::Pause(2000, 3000),
    ]
}

/// Opens the DNS settings of the contract `ipid`.
pub fn dns_script(ipid: &str) -> (r: Vec<BrowserStep>)
    ensures
        steps_view(r@) == dns_steps(ipid@),
        well_bound(steps_view(r@)),
{
    let mut v: Vec<BrowserStep> = Vec::new();
    assert(well_bound(steps_view(v@)));
    append_step(
        &mut v,
        BrowserStep::Navigate(
            concat2("https://secure.alfahosting.de/kunden/index.php/Kundencenter:Tarife?ipid=", ipid),
        ),
    );
    append_step(&mut v, BrowserStep::WaitUntilNavigated);
    append_step(&mut v, BrowserStep::Pause(2000, 3000));
    append_step(
        &mut v,
        BrowserStep::Navigate(
            text("https://secure.alfahosting.de/kunden/index.php/Kundencenter:Tarife/Details#dns"),
        ),
    );
    append_step(&mut v, BrowserStep::Pause(2000, 3000));
    append_step(&mut v, BrowserStep::Find(text("#dns_layer a")));
    append_step(&mut v, BrowserStep::Click(text("#dns_layer a")));
    append_step(&mut v, BrowserStep::Pause(2000, 3000));
    assert(steps_view(v@) =~= dns_steps(ipid@));
    v
}

/// The header of the domain `id` in the DNS settings.
pub open spec fn domain_header(id: Seq<char>) -> Seq<char> {
    "#hdr"@ + id
}

/// The script that unfolds the settings of domain `id` and scrolls them
/// into view.
pub open spec fn open_domain_steps(id: Seq<char>) -> Seq<StepView> {
    seq![
        StepView::Find(domain_header(id)),
        StepView::PressKey("PageDown"@),
        StepView::Pause(500, 500),
        StepView::ScrollIntoView(domain_header(id)),
        StepView::Click(domain_header(id)),
        StepView::PressKey("PageDown"@),
        StepView::Pause(500, 500),
        StepView::ScrollIntoView(domain_header(id)),
    ]
}

/// Unfolds the settings of domain `id`.
pub fn open_domain_script(id: &str) -> (r: Vec<BrowserStep>)
    ensures
        steps_view(r@) == open_domain_steps(id@),
        well_bound(steps_view(r@)),
{
    let mut v: Vec<BrowserStep> = Vec::new();
    assert(well_bound(steps_view(v@)));
    append_step(&mut v, BrowserStep::Find(concat2("#hdr", id)));
    append_step(&mut v, BrowserStep::PressKey(text("PageDown")));
    append_step(&mut v, BrowserStep::Pause(500, 500));
    append_step(&mut v, BrowserStep::ScrollIntoView(concat2("#hdr", id)));
    append_step(&mut v, BrowserStep::Click(concat2("#hdr", id)));
    append_step(&mut v, BrowserStep::PressKey(text("PageDown")));
    append_step(&mut v, BrowserStep::Pause(500, 500));
    append_step(&mut v, BrowserStep::ScrollIntoView(concat2("#hdr", id)));
    assert(steps_view(v@) =~= open_domain_steps(id@));
    v
}

/// The script that folds the settings of domain `id` again.
pub open spec fn close_domain_steps(id: Seq<char>) -> Seq<StepView> {
    seq![
        StepView::Find(domain_header(id)),
        StepView::Click(domain_header(id)),
        StepView::Pause(500, 500),
    ]
}

/// Folds the settings of domain `id`.
pub fn close_domain_script(id: &str) -> (r: Vec<BrowserStep>)
    ensures
        steps_view(r@) == close_domain_steps(id@),
        well_bound(steps_view(r@)),
{
    let mut v: Vec<BrowserStep> = Vec::new();
    assert(well_bound(steps_view(v@)));
    append_step(&mut v, BrowserStep::Find(concat2("#hdr", id)));
    append_step(&mut v, BrowserStep::Click(concat2("#hdr", id)));
    append_step(&mut v, BrowserStep::Pause(500, 500));
    assert(steps_view(v@) =~= close_domain_steps(id@));
    v
}

/// The script that makes the page's confirmation and alert dialogs answer
/// by themselves.
pub open spec fn popup_steps() -> Seq<StepView> {
    seq![
        StepView::Find("body"@),
        StepView::CallJs("body"@, "function () {window.confirm = function myConfirm() {return true;}}"@),
        StepView::CallJs("body"@, "function () {window.alert = function myAlert() {return true;}}"@),
        StepView::Pause(500, 176),
    ]
}

/// Replaces the page's confirmation and alert dialogs by ones that accept.
pub fn overwrite_popups_script() -> (r: Vec<BrowserStep>)
    ensures
        steps_view(r@) == popup_steps(),
        well_bound(steps_view(r@)),
{
    let mut v: Vec<BrowserStep> = Vec::new();
    assert(well_bound(steps_view(v@)));
    append_step(&mut v, BrowserStep::Find(text("body")));
    append_step(
        &mut v,
        BrowserStep::CallJs(
            text("body"),
            text("function () {window.confirm = function myConfirm() {return true;}}"),
        ),
    );
    append_step(
        &mut v,
        BrowserStep::CallJs(
            text("body"),
            text("function () {window.alert = function myAlert() {return true;}}"),
        ),
    );
    append_step(&mut v, BrowserStep::Pause(500, 176));
    assert(steps_view(v@) =~= popup_steps());
    v
}

/// The page call that saves the records of domain `id`.
pub open spec fn save_js(id: Seq<char>) -> Seq<char> {
    "function () {document.fire('dns:save_records',"@ + id + ");return false;}"@
}

/// The script that saves the records of domain `id`.
pub open spec fn save_steps(id: Seq<char>) -> Seq<StepView> {
    seq![StepView::Find("body"@), StepView::CallJs("body"@, save_js(id)), StepView::Pause(2000, 3000)]
}

/// Saves the DNS records of domain `id`.
pub fn save_script(id: &str) -> (r: Vec<BrowserStep>)
    ensures
        steps_view(r@) == save_steps(id@),
        well_bound(steps_view(r@)),
{
    let mut v: Vec<BrowserStep> = Vec::new();
    assert(well_bound(steps_view(v@)));
    append_step(&mut v, BrowserStep::Find(text("body")));
    append_step(
        &mut v,
        BrowserStep::CallJs(
            text("body"),
            concat3("function () {document.fire('dns:save_records',", id, ");return false;}"),
        ),
    );
    append_step(&mut v, BrowserStep::Pause(2000, 3000));
    assert(steps_view(v@) =~= save_steps(id@));
    v
}

/// The page call that opens the form for a new record of domain `id`.
pub open spec fn add_zonelist_js(id: Seq<char>) -> Seq<char> {
    "function () {document.fire('dns:add_zonelist', "@ + id + ");return false;}"@
}

/// The zone file line of the TXT record that proves control of `domain`.
pub open spec fn txt_record(domain: Seq<char>, proof: Seq<char>) -> Seq<char> {
    "_acme-challenge."@ + domain + ". IN TXT \""@ + proof + "\""@
}

/// The TXT record line for the DNS-01 proof of `domain`.
pub fn txt_record_line(domain: &str, proof: &str) -> (r: String)
    ensures
        r@ == txt_record(domain@, proof@),
{
    let mut s = String::from_str("_acme-challenge.");
    s.append(domain);
    s.append(". IN TXT \"");
    s.append(proof);
    s.append("\"");
    s
}

/// The script that adds the TXT record of a DNS-01 proof to domain `id`.
pub open spec fn create_acme_steps(id: Seq<char>, domain: Seq<char>, proof: Seq<char>) -> Seq<StepView> {
    seq![StepView::Find("body"@)] + open_domain_steps(id) + seq![
        StepView::CallJs("body"@, add_zonelist_js(id)),
        StepView::Pause(500, 500),
        StepView::Find("#zonelist_pattern"@),
        StepView::TypeInto("#zonelist_pattern"@, txt_record(domain, proof)),
        StepView::Pause(500, 500),
        StepView::CallJs("body"@, "function () {document.fire('dns:exec_zonelist_add');return false;}"@),
    ] + popup_steps() + save_steps(id) + close_domain_steps(id)
}

/// Adds the TXT record `_acme-challenge.<domain>. IN TXT "<proof>"` to the
/// zone of domain `id`, saves it and folds the domain again.
pub fn create_acme_script(id: &str, domain: &str, proof: &str) -> (r: Vec<BrowserStep>)
    ensures
        steps_view(r@) == create_acme_steps(id@, domain@, proof@),
        well_bound(steps_view(r@)),
{
    let mut v: Vec<BrowserStep> = Vec::new();
    assert(well_bound(steps_view(v@)));
    append_step(&mut v, BrowserStep::Find(text("body")));
    let ghost start = steps_view(v@);
    append_script(&mut v, open_domain_script(id));
    let ghost opened = steps_view(v@);
    append_step(
        &mut v,
        BrowserStep::CallJs(
            text("body"),
            concat3("function () {document.fire('dns:add_zonelist', ", id, ");return false;}"),
        ),
    );
    append_step(&mut v, BrowserStep::Pause(500, 500));
    append_step(&mut v, BrowserStep::Find(text("#zonelist_pattern")));
    append_step(&mut v, BrowserStep::TypeInto(text("#zonelist_pattern"), txt_record_line(domain, proof)));
    append_step(&mut v, BrowserStep::Pause(500, 500));
    append_step(
        &mut v,
        BrowserStep::CallJs(
            text("body"),
            text("function () {document.fire('dns:exec_zonelist_add');return false;}"),
        ),
    );
    let ghost typed = steps_view(v@);
    append_script(&mut v, overwrite_popups_script());
    append_script(&mut v, save_script(id));
    append_script(&mut v, close_domain_script(id));
    assert(typed =~= opened + seq![
        StepView::CallJs("body"@, add_zonelist_js(id@)),
        StepView::Pause(500, 500),
        StepView::Find("#zonelist_pattern"@),
        StepView::TypeInto("#zonelist_pattern"@, txt_record(domain@, proof@)),
        StepView::Pause(500, 500),
        StepView::CallJs("body"@, "function () {document.fire('dns:exec_zonelist_add');return false;}"@),
    ]);
    assert(steps_view(v@) =~= create_acme_steps(id@, domain@, proof@));
    v
}

/// Each script that edits the zone of a domain ends by saving the records
/// of that domain and folding it again; the script that adds a record
/// types exactly the TXT record of the proof into the new-record form.
pub proof fn lemma_zone_edits_end_saved(id: Seq<char>, domain: Seq<char>, proof: Seq<char>, entry: Seq<char>)
    ensures
        ({
            let c = create_acme_steps(id, domain, proof);
            &&& c.len() == 25
            &&& c.subrange(19, 25) == save_steps(id) + close_domain_steps(id)
            &&& c[12] == StepView::TypeInto("#zonelist_pattern"@, txt_record(domain, proof))
            &&& forall|i: int|
                0 <= i < c.len() && i != 12 ==> !(#[trigger] c[i] matches StepView::TypeInto(_, _))
        }),
        ({
            let d = delete_entry_steps(id, entry);
            &&& d.len() == 8
            &&& d.subrange(2, 8) == save_steps(id) + close_domain_steps(id)
        }),
{
    let c = create_acme_steps(id, domain, proof);
    assert(c.subrange(19, 25) =~= save_steps(id) + close_domain_steps(id));
    let d = delete_entry_steps(id, entry);
    assert(d.subrange(2, 8) =~= save_steps(id) + close_domain_steps(id));
}

/// The script that unfolds domain `id` before its last record is removed.
pub open spec fn delete_prelude_steps(id: Seq<char>) -> Seq<StepView> {
    open_domain_steps(id) + popup_steps()
}

/// Unfolds domain `id` and makes the page's dialogs accept, ready to
/// remove a record.
pub fn delete_prelude_script(id: &str) -> (r: Vec<BrowserStep>)
    ensures
        steps_view(r@) == delete_prelude_steps(id@),
        well_bound(steps_view(r@)),
{
    let mut v = open_domain_script(id);
    append_script(&mut v, overwrite_popups_script());
    v
}

/// The selector of the DNS records listed for domain `id`.
pub open spec fn entries_selector_spec(id: Seq<char>) -> Seq<char> {
    "#dns_entries_"@ + id + " .dns_entry"@
}

/// The selector of the DNS records listed for domain `id`.
pub fn entries_selector(id: &str) -> (r: String)
    ensures
        r@ == entries_selector_spec(id@),
{
    concat3("#dns_entries_", id, " .dns_entry")
}

/// The delete button of the record element whose id is `entry`.
pub open spec fn delete_button(entry: Seq<char>) -> Seq<char> {
    "#"@ + entry + " .dns_entry_action"@
}

/// The script that deletes the record element `entry` of domain `id`,
/// saves and folds the domain again.
pub open spec fn delete_entry_steps(id: Seq<char>, entry: Seq<char>) -> Seq<StepView> {
    seq![StepView::Find(delete_button(entry)), StepView::Click(delete_button(entry))] + save_steps(id)
        + close_domain_steps(id)
}

/// Deletes the record element `entry` of domain `id`.
pub fn delete_entry_script(id: &str, entry: &str) -> (r: Vec<BrowserStep>)
    ensures
        steps_view(r@) == delete_entry_steps(id@, entry@),
        well_bound(steps_view(r@)),
{
    let mut v: Vec<BrowserStep> = Vec::new();
    assert(well_bound(steps_view(v@)));
    append_step(&mut v, BrowserStep::Find(concat3("#", entry, " .dns_entry_action")));
    append_step(&mut v, BrowserStep::Click(concat3("#", entry, " .dns_entry_action")));
    append_script(&mut v, save_script(id));
    append_script(&mut v, close_domain_script(id));
    assert(steps_view(v@) =~= delete_entry_steps(id@, entry@));
    v
}

/// The value of attribute `name` in a flat list of attribute names and
/// values, as the DevTools protocol reports them: the value after the
/// first name that matches.
pub open spec fn attr_lookup(attrs: Seq<Seq<char>>, name: Seq<char>) -> Option<Seq<char>>
    decreases attrs.len(),
{
    if attrs.len() < 2 {
        None
    } else if attrs[0] == name {
        Some(attrs[1])
    } else {
        attr_lookup(attrs.skip(2), name)
    }
}

/// The attributes of an element, where it reported them.
pub open spec fn attrs_view(attrs: Option<Vec<String>>) -> Option<Seq<Seq<char>>> {
    match attrs {
        Some(v) => Some(v@.map_values(|s: String| s@)),
        None => None,
    }
}

/// The id of a record element, where it has one.
pub open spec fn entry_id(attrs: Option<Seq<Seq<char>>>) -> Option<Seq<char>> {
    match attrs {
        Some(a) => attr_lookup(a, "id"@),
        None => None,
    }
}

/// The id of the last record element that has one, or the empty text
/// where none has.
pub open spec fn last_entry_id_spec(entries: Seq<Option<Seq<Seq<char>>>>) -> Seq<char>
    decreases entries.len(),
{
    if entries.len() == 0 {
        Seq::<char>::empty()
    } else {
        match entry_id(entries.last()) {
            Some(id) => id,
            None => last_entry_id_spec(entries.drop_last()),
        }
    }
}

/// Looks up attribute `name` in a flat list of names and values.
pub fn attribute_value(attrs: &Vec<String>, name: &String) -> (r: Option<String>)
    ensures
        match (r, attr_lookup(attrs@.map_values(|s: String| s@), name@)) {
            (Some(v), Some(w)) => v@ == w,
            (None, None) => true,
            _ => false,
        },
{
    let ghost all = attrs@.map_values(|s: String| s@);
    let n = attrs.len();
    let mut i: usize = 0;
    assert(all.skip(0) =~= all);
    while n - i >= 2
        invariant
            n == attrs@.len(),
            all == attrs@.map_values(|s: String| s@),
            i <= n,
            attr_lookup(all, name@) == attr_lookup(all.skip(i as int), name@),
        decreases n - i,
    {
        let ghost rest = all.skip(i as int);
        assert(rest[0] == attrs@[i as int]@);
        assert(rest[1] == attrs@[i + 1]@);
        if attrs[i] == *name {
            return Some(attrs[i + 1].clone());
        }
        assert(rest.skip(2) =~= all.skip(i + 2));
        i = i + 2;
    }
    None
}

/// The id of the last listed record: the DNS records of a domain are
/// listed oldest first, so this is the record added last.
pub fn last_entry_id(entries: &Vec<Option<Vec<String>>>) -> (r: String)
    ensures
        r@ == last_entry_id_spec(entries@.map_values(|a: Option<Vec<String>>| attrs_view(a))),
{
    let ghost all = entries@.map_values(|a: Option<Vec<String>>| attrs_view(a));
    let id_name = text("id");
    let mut current = String::new();
    let n = entries.len();
    let mut i: usize = 0;
    assert(all.take(0) =~= Seq::<Option<Seq<Seq<char>>>>::empty());
    while i < n
        invariant
            n == entries@.len(),
            all == entries@.map_values(|a: Option<Vec<String>>| attrs_view(a)),
            id_name@ == "id"@,
            i <= n,
            current@ == last_entry_id_spec(all.take(i as int)),
        decreases n - i,
    {
        assert(all.take(i + 1).drop_last() =~= all.take(i as int));
        assert(all.take(i + 1).last() == attrs_view(entries@[i as int]));
        match &entries[i] {
            Some(attrs) => {
                match attribute_value(attrs, &id_name) {
                    Some(id) => {
                        current = id;
                    },
                    None => {},
                }
            },
            None => {},
        }
        i = i + 1;
    }
    assert(all.take(n as int) =~= all);
    current
}


proof fn lemma_attr_lookup_finds(attrs: Seq<Seq<char>>, name: Seq<char>, i: int)
    requires
        0 <= i,
        i % 2 == 0,
        i + 1 < attrs.len(),
        attrs[i] == name,
        forall|j: int| 0 <= j < i && j % 2 == 0 ==> attrs[j] != name,
    ensures
        attr_lookup(attrs, name) == Some(attrs[i + 1]),
    decreases i,
{
    if i > 0 {
        assert(attrs[0] != name);
        let rest = attrs.skip(2);
        assert(rest[i - 2] == attrs[i]);
        assert(rest[i - 1] == attrs[i + 1]);
        assert forall|j: int| 0 <= j < i - 2 && j % 2 == 0 implies rest[j] != name by {
            assert(rest[j] == attrs[j + 2]);
        }
        lemma_attr_lookup_finds(rest, name, i - 2);
    }
}

proof fn lemma_attr_lookup_absent(attrs: Seq<Seq<char>>, name: Seq<char>)
    requires
        forall|j: int| 0 <= j && j % 2 == 0 && j + 1 < attrs.len() ==> attrs[j] != name,
    ensures
        attr_lookup(attrs, name) is None,
    decreases attrs.len(),
{
    if attrs.len() >= 2 {
        assert(attrs[0] != name);
        let rest = attrs.skip(2);
        assert forall|j: int| 0 <= j && j % 2 == 0 && j + 1 < rest.len() implies rest[j] != name by {
            assert(rest[j] == attrs[j + 2]);
        }
        lemma_attr_lookup_absent(rest, name);
    }
}

/// The element carries an attribute named `id` with a value: some name
/// position of its flat list of names and values holds `id`.
pub open spec fn carries_id(attrs: Option<Seq<Seq<char>>>) -> bool {
    attrs is Some && exists|j: int|
        0 <= j && j % 2 == 0 && j + 1 < attrs->0.len() && #[trigger] attrs->0[j] == "id"@
}

/// The record chosen for deletion is the last listed element that carries
/// an `id` attribute, found at whatever name position it stands: where the
/// element at `k` has its first `id` name at position `i`, and no element
/// listed after it carries an `id`, the chosen id is the value at `i + 1`.
pub proof fn lemma_last_entry_id_is_last_listed_id(entries: Seq<Option<Seq<Seq<char>>>>, k: int, i: int)
    requires
        0 <= k < entries.len(),
        entries[k] is Some,
        0 <= i,
        i % 2 == 0,
        i + 1 < entries[k]->0.len(),
        entries[k]->0[i] == "id"@,
        forall|j: int| 0 <= j < i && j % 2 == 0 ==> entries[k]->0[j] != "id"@,
        forall|m: int| k < m < entries.len() ==> !#[trigger] carries_id(entries[m]),
    ensures
        last_entry_id_spec(entries) == entries[k]->0[i + 1],
    decreases entries.len(),
{
    let n = entries.len() as int;
    if k == n - 1 {
        lemma_attr_lookup_finds(entries[k]->0, "id"@, i);
    } else {
        let last = entries[n - 1];
        assert(!carries_id(last));
        if let Some(a) = last {
            assert forall|j: int| 0 <= j && j % 2 == 0 && j + 1 < a.len() implies a[j] != "id"@ by {
                if a[j] == "id"@ {
                    assert(carries_id(last));
                }
            }
            lemma_attr_lookup_absent(a, "id"@);
        }
        let front = entries.drop_last();
        assert(front[k] == entries[k]);
        assert forall|m: int| k < m < front.len() implies !#[trigger] carries_id(front[m]) by {
            assert(front[m] == entries[m]);
        }
        lemma_last_entry_id_is_last_listed_id(front, k, i);
    }
}

/// Where no listed element carries an `id` attribute, the chosen id is
/// empty.
pub proof fn lemma_last_entry_id_without_ids(entries: Seq<Option<Seq<Seq<char>>>>)
    requires
        forall|m: int| 0 <= m < entries.len() ==> !#[trigger] carries_id(entries[m]),
    ensures
        last_entry_id_spec(entries) == Seq::<char>::empty(),
    decreases entries.len(),
{
    if entries.len() > 0 {
        let last = entries.last();
        assert(!carries_id(entries[entries.len() - 1]));
        if let Some(a) = last {
            assert forall|j: int| 0 <= j && j % 2 == 0 && j + 1 < a.len() implies a[j] != "id"@ by {
                if a[j] == "id"@ {
                    assert(carries_id(last));
                }
            }
            lemma_attr_lookup_absent(a, "id"@);
        }
        let front = entries.drop_last();
        assert forall|m: int| 0 <= m < front.len() implies !#[trigger] carries_id(front[m]) by {
            assert(front[m] == entries[m]);
        }
        lemma_last_entry_id_without_ids(front);
    }
}

/// Signing in opens the login page, types the username and the password
/// into their fields, then clicks the submit button of the login form,
/// located beforehand, and fails where the page shows a login error.
pub proof fn lemma_signin_submits_credentials(username: Seq<char>, password: Seq<char>)
    ensures
        ({
            let s = signin_steps(username, password);
            &&& s.len() == 17
            &&& s[0] == StepView::Navigate("https://alfahosting.de/kunden-login/"@)
            &&& s[8] == StepView::Find("#loginForm input[type=\"submit\"]"@)
            &&& s[12] == StepView::TypeInto("#username"@, username)
            &&& s[13] == StepView::TypeInto("#password"@, password)
            &&& s[14] == StepView::Click("#loginForm input[type=\"submit\"]"@)
            &&& s[16] == StepView::FailIfPresent(
                "#login.errorSection"@,
                "The provided username or password was not correct."@,
            )
        }),
{
}

/// Answering the login protection types the code into the code field of
/// the protection form and clicks that form's submit button.
pub proof fn lemma_protection_submits_code(code: Seq<char>)
    ensures
        ({
            let s = protection_steps(code);
            &&& s.len() == 10
            &&& s[2] == StepView::Find("#loginProtectionForm input[type=\"submit\"]"@)
            &&& s[6] == StepView::TypeInto("#loginProtectionForm #code"@, code)
            &&& s[7] == StepView::Click("#loginProtectionForm input[type=\"submit\"]"@)
            &&& s[9] == StepView::FailIfPresent("#login.errorSection"@, "The provided code was incorrect."@)
        }),
{
}

/// Opening the DNS settings loads the page of the contract `ipid`, then its
/// DNS details, and clicks the continue link of the DNS layer.
pub proof fn lemma_dns_opens_settings(ipid: Seq<char>)
    ensures
        ({
            let s = dns_steps(ipid);
            &&& s.len() == 8
            &&& s[0] == StepView::Navigate(
                "https://secure.alfahosting.de/kunden/index.php/Kundencenter:Tarife?ipid="@ + ipid,
            )
            &&& s[3] == StepView::Navigate(
                "https://secure.alfahosting.de/kunden/index.php/Kundencenter:Tarife/Details#dns"@,
            )
            &&& s[5] == StepView::Find("#dns_layer a"@)
            &&& s[6] == StepView::Click("#dns_layer a"@)
        }),
{
}

/// Publishing a proof unfolds the domain by clicking its header, opens the
/// new-record form of domain `id`, types the line
/// `_acme-challenge.<domain>. IN TXT "<proof>"`, adds that record with the
/// page's `dns:exec_zonelist_add`, saves the records of domain `id` and
/// clicks its header again.
pub proof fn lemma_create_publishes_record(id: Seq<char>, domain: Seq<char>, proof: Seq<char>)
    ensures
        ({
            let c = create_acme_steps(id, domain, proof);
            &&& c.len() == 25
            &&& c[0] == StepView::Find("body"@)
            &&& c[1] == StepView::Find("#hdr"@ + id)
            &&& c[5] == StepView::Click("#hdr"@ + id)
            &&& c[9] == StepView::CallJs(
                "body"@,
                "function () {document.fire('dns:add_zonelist', "@ + id + ");return false;}"@,
            )
            &&& c[11] == StepView::Find("#zonelist_pattern"@)
            &&& c[12] == StepView::TypeInto(
                "#zonelist_pattern"@,
                "_acme-challenge."@ + domain + ". IN TXT \""@ + proof + "\""@,
            )
            &&& c[14] == StepView::CallJs(
                "body"@,
                "function () {document.fire('dns:exec_zonelist_add');return false;}"@,
            )
            &&& c[20] == StepView::CallJs(
                "body"@,
                "function () {document.fire('dns:save_records',"@ + id + ");return false;}"@,
            )
            &&& c[23] == StepView::Click("#hdr"@ + id)
        }),
{
}

/// Deleting a record clicks the delete button of the record element
/// `entry`, saves the records of domain `id` and clicks its header again.
pub proof fn lemma_delete_removes_record(id: Seq<char>, entry: Seq<char>)
    ensures
        ({
            let d = delete_entry_steps(id, entry);
            &&& d.len() == 8
            &&& d[0] == StepView::Find("#"@ + entry + " .dns_entry_action"@)
            &&& d[1] == StepView::Click("#"@ + entry + " .dns_entry_action"@)
            &&& d[3] == StepView::CallJs(
                "body"@,
                "function () {document.fire('dns:save_records',"@ + id + ");return false;}"@,
            )
            &&& d[6] == StepView::Click("#hdr"@ + id)
        }),
        ({
            let p = delete_prelude_steps(id);
            &&& p.len() == 12
            &&& p[4] == StepView::Click("#hdr"@ + id)
            &&& p[9] == StepView::CallJs(
                "body"@,
                "function () {window.confirm = function myConfirm() {return true;}}"@,
            )
            &&& p[10] == StepView::CallJs(
                "body"@,
                "function () {window.alert = function myAlert() {return true;}}"@,
            )
        }),
{
}

} // verus!
