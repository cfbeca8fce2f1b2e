//! What an instance is told, and whether a running one was told the same.

use crate::agent::pooler::{debug_list, debug_list_of};
use crate::agent::upgrade::debug_option;
use crate::backup::config::{destination_views, Destination, DestinationView, RetentionMode};
use crate::container::SPEC_ENV;
use crate::control::error::{Error, ErrorView};
use crate::control::model::{ClusterManifest, Instance};
use crate::text::{
    clone_list, clone_opt, clone_pairs, debug_form, debug_quoted, join, joined, opt_text,
    pair_texts, push_text, same, same_list, same_opt, same_pairs, texts, trim_prefixes,
    without_prefixes, begins_with, every_part_is_there, no_prefix_is_left, occurs,
    a_part_occurs, a_part_of_a_part_occurs, the_end_of_a_part_is_there,
};
use vstd::prelude::*;
use vstd::string::*;

verus! {

/// Everything an instance is told when its container is created.
#[derive(Debug, Clone)]
pub struct InstanceSpec {
    pub instance: String,
    pub port: u16,
    /// How it comes into being, written out in full.
    pub bootstrap: String,
    pub parameters: Vec<(String, String)>,
    pub shared_preload_libraries: Vec<String>,
    pub network_cidr: Option<String>,
    pub archive_command: Option<String>,
    /// Without their credentials.
    pub destinations: Vec<Destination>,
    pub volume: Option<String>,
    pub retention: Option<String>,
    pub retention_mode: RetentionMode,
}

/// [`InstanceSpec`], over text.
pub struct InstanceSpecView {
    pub instance: Seq<char>,
    pub port: u16,
    pub bootstrap: Seq<char>,
    pub parameters: Seq<(Seq<char>, Seq<char>)>,
    pub shared_preload_libraries: Seq<Seq<char>>,
    pub network_cidr: Option<Seq<char>>,
    pub archive_command: Option<Seq<char>>,
    pub destinations: Seq<DestinationView>,
    pub volume: Option<Seq<char>>,
    pub retention: Option<Seq<char>>,
    pub retention_mode: RetentionMode,
}

impl View for InstanceSpec {
    type V = InstanceSpecView;

    open spec fn view(&self) -> InstanceSpecView {
        InstanceSpecView {
            instance: self.instance@,
            port: self.port,
            bootstrap: self.bootstrap@,
            parameters: pair_texts(self.parameters@),
            shared_preload_libraries: texts(self.shared_preload_libraries@),
            network_cidr: opt_text(self.network_cidr),
            archive_command: opt_text(self.archive_command),
            destinations: destination_views(self.destinations@),
            volume: opt_text(self.volume),
            retention: opt_text(self.retention),
            retention_mode: self.retention_mode,
        }
    }
}

/// What an apply brings to an instance besides the manifest.
#[derive(Debug, Clone)]
pub struct ApplyContext {
    /// How the instance comes into being, written out in full.
    pub bootstrap: String,
    pub network_cidr: Option<String>,
    /// The command that archives a segment of this cluster.
    pub archive_command: String,
    /// The manifest's destinations, without their credentials.
    pub destinations: Vec<Destination>,
    pub recreate: bool,
    pub desired_image_id: Option<String>,
}

/// What an instance is told.
pub open spec fn spec_of(
    m: ClusterManifest,
    instance: Instance,
    ctx: ApplyContext,
) -> InstanceSpecView {
    InstanceSpecView {
        instance: instance.name(),
        port: 5432,
        bootstrap: ctx.bootstrap@,
        parameters: pair_texts(m.parameters@),
        shared_preload_libraries: texts(m.shared_preload_libraries@),
        network_cidr: opt_text(ctx.network_cidr),
        archive_command: if ctx.destinations@.len() > 0 {
            Some(ctx.archive_command@)
        } else {
            None
        },
        destinations: destination_views(ctx.destinations@),
        volume: opt_text(m.backup.volume),
        retention: opt_text(m.backup.retention),
        retention_mode: m.backup.retention_mode,
    }
}

fn clone_destinations(v: &Vec<Destination>) -> (r: Vec<Destination>)
    ensures
        destination_views(r@) == destination_views(v@),
{
    let mut out: Vec<Destination> = Vec::new();
    let ghost want = destination_views(v@);
    let mut i: usize = 0;
    while i < v.len()
        invariant
            i <= v.len(),
            want == destination_views(v@),
            destination_views(out@) == want.take(i as int),
        decreases v.len() - i,
    {
        let d = &v[i];
        let c = Destination {
            url: d.url.clone(),
            endpoint: clone_opt(&d.endpoint),
            region: clone_opt(&d.region),
            verify_tls: d.verify_tls,
            options: clone_pairs(&d.options),
            credentials: clone_opt(&d.credentials),
        };
        assert(c@ == want[i as int]);
        let ghost before = destination_views(out@);
        let ghost added = c@;
        out.push(c);
        assert(destination_views(out@) =~= before.push(added));
        assert(destination_views(out@) =~= want.take(i + 1));
        i = i + 1;
    }
    assert(want.take(want.len() as int) =~= want);
    out
}

/// What an instance is told. Archiving is on from the first segment where
/// there is anywhere to archive to.
pub fn instance_spec(m: &ClusterManifest, instance: &Instance, ctx: &ApplyContext) -> (r:
    InstanceSpec)
    ensures
        r@ == spec_of(*m, *instance, *ctx),
{
    InstanceSpec {
        instance: instance.to_text(),
        port: 5432,
        bootstrap: ctx.bootstrap.clone(),
        parameters: clone_pairs(&m.parameters),
        shared_preload_libraries: clone_list(&m.shared_preload_libraries),
        network_cidr: clone_opt(&ctx.network_cidr),
        archive_command: if ctx.destinations.len() > 0 {
            Some(ctx.archive_command.clone())
        } else {
            None
        },
        destinations: clone_destinations(&ctx.destinations),
        volume: clone_opt(&m.backup.volume),
        retention: clone_opt(&m.backup.retention),
        retention_mode: m.backup.retention_mode,
    }
}

fn same_destination(a: &Destination, b: &Destination) -> (r: bool)
    ensures
        r == (a@ == b@),
{
    same(a.url.as_str(), b.url.as_str()) && same_opt(&a.endpoint, &b.endpoint) && same_opt(
        &a.region,
        &b.region,
    ) && a.verify_tls == b.verify_tls && same_pairs(&a.options, &b.options) && same_opt(
        &a.credentials,
        &b.credentials,
    )
}

fn same_destinations(a: &Vec<Destination>, b: &Vec<Destination>) -> (r: bool)
    ensures
        r == (destination_views(a@) == destination_views(b@)),
{
    let ghost x = destination_views(a@);
    let ghost y = destination_views(b@);
    assert(x.len() == a.len() && y.len() == b.len());
    if a.len() != b.len() {
        return false;
    }
    let mut i: usize = 0;
    while i < a.len()
        invariant
            a.len() == b.len(),
            i <= a.len(),
            x == destination_views(a@),
            y == destination_views(b@),
            forall|k: int| 0 <= k < i ==> x[k] == y[k],
        decreases a.len() - i,
    {
        if !same_destination(&a[i], &b[i]) {
            assert(x[i as int] != y[i as int]);
            return false;
        }
        i = i + 1;
    }
    assert(x =~= y);
    true
}

/// Whether two instances were told the same.
pub fn same_spec(a: &InstanceSpec, b: &InstanceSpec) -> (r: bool)
    ensures
        r == (a@ == b@),
{
    same(a.instance.as_str(), b.instance.as_str()) && a.port == b.port && same(
        a.bootstrap.as_str(),
        b.bootstrap.as_str(),
    ) && same_pairs(&a.parameters, &b.parameters) && same_list(
        &a.shared_preload_libraries,
        &b.shared_preload_libraries,
    ) && same_opt(&a.network_cidr, &b.network_cidr) && same_opt(
        &a.archive_command,
        &b.archive_command,
    ) && same_destinations(&a.destinations, &b.destinations) && same_opt(&a.volume, &b.volume)
        && same_opt(&a.retention, &b.retention) && a.retention_mode == b.retention_mode
}

// ---- the difference --------------------------------------------------

/// A line for a field that changed.
pub open spec fn noted(
    out: Seq<Seq<char>>,
    field: Seq<char>,
    from: Seq<char>,
    to: Seq<char>,
) -> Seq<Seq<char>> {
    if from == to {
        out
    } else {
        out.push("  "@ + field + ": "@ + from + " -> "@ + to)
    }
}

fn note(out: &mut Vec<String>, field: &str, from: &str, to: &str)
    ensures
        texts(final(out)@) == noted(texts(old(out)@), field@, from@, to@),
{
    if !same(from, to) {
        let mut s = "  ".to_owned();
        s.append(field);
        s.append(": ");
        s.append(from);
        s.append(" -> ");
        s.append(to);
        push_text(out, s);
    }
}

/// A pair as it is written for debugging.
pub open spec fn debug_pair(p: (Seq<char>, Seq<char>)) -> Seq<char> {
    "("@ + debug_form(p.0) + ", "@ + debug_form(p.1) + ")"@
}

/// Pairs as they are written for debugging.
pub open spec fn debug_pairs(v: Seq<(Seq<char>, Seq<char>)>) -> Seq<char> {
    "["@ + joined(v.map_values(|p: (Seq<char>, Seq<char>)| debug_pair(p)), ", "@) + "]"@
}

/// Pairs as they are written for debugging.
pub fn debug_pairs_of(v: &Vec<(String, String)>) -> (r: String)
    ensures
        r@ == debug_pairs(pair_texts(v@)),
{
    let mut parts: Vec<String> = Vec::new();
    let ghost want = pair_texts(v@).map_values(|p: (Seq<char>, Seq<char>)| debug_pair(p));
    let mut i: usize = 0;
    while i < v.len()
        invariant
            i <= v.len(),
            want == pair_texts(v@).map_values(|p: (Seq<char>, Seq<char>)| debug_pair(p)),
            texts(parts@) == want.take(i as int),
        decreases v.len() - i,
    {
        let mut s = "(".to_owned();
        s.append(debug_quoted(v[i].0.as_str()).as_str());
        s.append(", ");
        s.append(debug_quoted(v[i].1.as_str()).as_str());
        s.append(")");
        assert(s@ == want[i as int]);
        push_text(&mut parts, s);
        assert(texts(parts@) =~= want.take(i + 1));
        i = i + 1;
    }
    assert(want.take(want.len() as int) =~= want);
    let mut s = "[".to_owned();
    s.append(join(&parts, ", ").as_str());
    s.append("]");
    s
}

/// Whether archiving is on.
pub open spec fn archive_mode(s: InstanceSpecView) -> Seq<char> {
    if s.archive_command is Some {
        "on"@
    } else {
        "off"@
    }
}

/// Whether archiving is on.
pub fn archive_mode_of(s: &InstanceSpec) -> (r: &'static str)
    ensures
        r@ == archive_mode(s@),
{
    if s.archive_command.is_some() {
        "on"
    } else {
        "off"
    }
}

/// The destinations' URLs.
pub open spec fn urls(s: InstanceSpecView) -> Seq<char> {
    if s.destinations.len() == 0 {
        "none"@
    } else {
        joined(s.destinations.map_values(|d: DestinationView| d.url), ", "@)
    }
}

/// The destinations' URLs.
pub fn destination_urls(s: &InstanceSpec) -> (r: String)
    ensures
        r@ == urls(s@),
{
    assert(s@.destinations.len() == s.destinations.len());
    if s.destinations.len() == 0 {
        return "none".to_owned();
    }
    let mut parts: Vec<String> = Vec::new();
    let ghost want = s@.destinations.map_values(|d: DestinationView| d.url);
    let mut i: usize = 0;
    while i < s.destinations.len()
        invariant
            i <= s.destinations.len(),
            want == s@.destinations.map_values(|d: DestinationView| d.url),
            texts(parts@) == want.take(i as int),
        decreases s.destinations.len() - i,
    {
        push_text(&mut parts, s.destinations[i].url.clone());
        assert(texts(parts@) =~= want.take(i + 1));
        i = i + 1;
    }
    assert(want.take(want.len() as int) =~= want);
    join(&parts, ", ")
}

/// How a retention mode is written for debugging.
pub open spec fn mode_word(m: RetentionMode) -> Seq<char> {
    match m {
        RetentionMode::Report => "Report"@,
        RetentionMode::Enforce => "Enforce"@,
    }
}

/// The retention window and mode.
pub open spec fn retention_line(s: InstanceSpecView) -> Seq<char> {
    debug_option(s.retention) + " ("@ + mode_word(s.retention_mode) + ")"@
}

fn retention_line_of(s: &InstanceSpec) -> (r: String)
    ensures
        r@ == retention_line(s@),
{
    let mut t = match &s.retention {
        Some(v) => {
            let mut t = "Some(".to_owned();
            t.append(debug_quoted(v.as_str()).as_str());
            t.append(")");
            t
        },
        None => "None".to_owned(),
    };
    t.append(" (");
    match s.retention_mode {
        RetentionMode::Report => t.append("Report"),
        RetentionMode::Enforce => t.append("Enforce"),
    }
    t.append(")");
    t
}

/// The fields that differ, a line each. A difference in none of them is
/// still said to be one.
pub open spec fn difference_lines(
    a: InstanceSpecView,
    b: InstanceSpecView,
    image: Option<(Seq<char>, Seq<char>)>,
) -> Seq<Seq<char>> {
    let o = match image {
        Some((from, to)) => noted(Seq::empty(), "image"@, from, to),
        None => Seq::empty(),
    };
    let o = noted(o, "bootstrap"@, a.bootstrap, b.bootstrap);
    let o = noted(o, "parameters"@, debug_pairs(a.parameters), debug_pairs(b.parameters));
    let o = noted(
        o,
        "sharedPreloadLibraries"@,
        debug_list(a.shared_preload_libraries),
        debug_list(b.shared_preload_libraries),
    );
    let o = noted(o, "archive_mode"@, archive_mode(a), archive_mode(b));
    let o = noted(o, "backup.destinations"@, urls(a), urls(b));
    let o = noted(o, "backup.retention"@, retention_line(a), retention_line(b));
    if o.len() == 0 {
        seq!["  (a field this diff does not yet name)"@]
    } else {
        o
    }
}

pub open spec fn image_texts(i: Option<(String, String)>) -> Option<(Seq<char>, Seq<char>)> {
    match i {
        Some((a, b)) => Some((a@, b@)),
        None => None,
    }
}

/// The fields that differ, a line each.
pub fn differences(
    running: &InstanceSpec,
    desired: &InstanceSpec,
    image_change: &Option<(String, String)>,
) -> (r: Vec<String>)
    ensures
        texts(r@) == difference_lines(running@, desired@, image_texts(*image_change)),
{
    let mut out: Vec<String> = Vec::new();
    assert(texts(out@) =~= Seq::empty());
    if let Some((from, to)) = image_change {
        note(&mut out, "image", from.as_str(), to.as_str());
    }
    note(&mut out, "bootstrap", running.bootstrap.as_str(), desired.bootstrap.as_str());
    note(
        &mut out,
        "parameters",
        debug_pairs_of(&running.parameters).as_str(),
        debug_pairs_of(&desired.parameters).as_str(),
    );
    note(
        &mut out,
        "sharedPreloadLibraries",
        debug_list_of(&running.shared_preload_libraries).as_str(),
        debug_list_of(&desired.shared_preload_libraries).as_str(),
    );
    note(&mut out, "archive_mode", archive_mode_of(running), archive_mode_of(desired));
    note(
        &mut out,
        "backup.destinations",
        destination_urls(running).as_str(),
        destination_urls(desired).as_str(),
    );
    note(
        &mut out,
        "backup.retention",
        retention_line_of(running).as_str(),
        retention_line_of(desired).as_str(),
    );
    assert(texts(out@).len() == out.len());
    if out.len() == 0 {
        push_text(&mut out, "  (a field this diff does not yet name)".to_owned());
        assert(texts(out@) =~= seq!["  (a field this diff does not yet name)"@]);
    }
    out
}

// ---- divergence ------------------------------------------------------

/// The first twelve characters of an image id, without its algorithm.
pub open spec fn short(id: Seq<char>) -> Seq<char> {
    let s = without_prefixes(id, "sha256:"@);
    if s.len() <= 12 {
        s
    } else {
        s.take(12)
    }
}

/// The first twelve characters of an image id, without its algorithm.
pub fn short_id(id: &str) -> (r: String)
    ensures
        r@ == short(id@),
{
    proof {
        reveal_strlit("sha256:");
    }
    let s = trim_prefixes(id, "sha256:");
    let n: usize = s.unicode_len();
    let m: usize = if n <= 12 { n } else { 12 };
    assert(s@.subrange(0, s@.len() as int) =~= s@);
    assert(n > 12 ==> s@.subrange(0, 12) =~= s@.take(12));
    s.substring_char(0, m).to_owned()
}

/// What a running container was told.
#[derive(Debug, Clone)]
pub enum Told {
    /// It carries no specification.
    Nothing,
    /// It carries one that cannot be read, for this reason.
    Unreadable(String),
    /// It carries one that cannot be compared: what is wanted is not valid, for
    /// this reason.
    Invalid(String),
    Spec(InstanceSpec),
}

/// The image a container runs.
#[derive(Debug, Clone)]
pub struct RunningImage {
    pub id: Option<String>,
    pub name: Option<String>,
}

/// The image changed: from what it is called, or its id, to the manifest's.
pub open spec fn image_change_of(
    desired_id: Option<Seq<char>>,
    running: RunningImage,
    image_name: Seq<char>,
) -> Option<(Seq<char>, Seq<char>)> {
    match (desired_id, running.id) {
        (Some(d), Some(r)) => if d != r@ {
            Some(
                (
                    match running.name {
                        Some(n) => n@,
                        None => short(r@),
                    },
                    image_name,
                ),
            )
        } else {
            None
        },
        _ => None,
    }
}

/// Whether the image changed. Where either id is not known it is not said to
/// have.
pub fn image_change(desired_id: &Option<String>, running: &RunningImage, image_name: &str) -> (r:
    Option<(String, String)>)
    ensures
        image_texts(r) == image_change_of(opt_text(*desired_id), *running, image_name@),
{
    match (desired_id, &running.id) {
        (Some(d), Some(r)) => if !same(d.as_str(), r.as_str()) {
            let from = match &running.name {
                Some(n) => n.clone(),
                None => short_id(r.as_str()),
            };
            Some((from, image_name.to_owned()))
        } else {
            None
        },
        _ => None,
    }
}

/// Why a container cannot be kept as it is.
pub open spec fn divergence(
    m: ClusterManifest,
    instance: Instance,
    ctx: ApplyContext,
    told: Told,
    image: RunningImage,
) -> Option<ErrorView> {
    match told {
        Told::Nothing => Some(
            ErrorView::Diverged {
                instance: instance.name(),
                detail: "the running container has no "@ + SPEC_ENV@,
            },
        ),
        Told::Unreadable(e) => Some(ErrorView::Spec(e@)),
        Told::Invalid(e) => Some(ErrorView::Spec(e@)),
        Told::Spec(running) => {
            let desired = spec_of(m, instance, ctx);
            let change = image_change_of(opt_text(ctx.desired_image_id), image, m.image_name@);
            if running@ == desired && change is None {
                None
            } else {
                Some(
                    ErrorView::Diverged {
                        instance: instance.name(),
                        detail: joined(difference_lines(running@, desired, change), "\n"@),
                    },
                )
            }
        },
    }
}

pub open spec fn error_view(e: Option<Error>) -> Option<ErrorView> {
    match e {
        Some(e) => Some(e@),
        None => None,
    }
}

/// Refuses a container that was told something else than the manifest says,
/// or runs another image: what it was told is fixed when it is created.
pub fn refuse_if_diverged(
    m: &ClusterManifest,
    instance: &Instance,
    ctx: &ApplyContext,
    told: &Told,
    image: &RunningImage,
) -> (r: Option<Error>)
    ensures
        error_view(r) == divergence(*m, *instance, *ctx, *told, *image),
{
    match told {
        Told::Nothing => {
            let mut detail = "the running container has no ".to_owned();
            detail.append(SPEC_ENV);
            Some(Error::Diverged { instance: instance.to_text(), detail })
        },
        Told::Unreadable(e) => Some(Error::Spec(e.clone())),
        Told::Invalid(e) => Some(Error::Spec(e.clone())),
        Told::Spec(running) => {
            let desired = instance_spec(m, instance, ctx);
            let change = image_change(&ctx.desired_image_id, image, m.image_name.as_str());
            if same_spec(running, &desired) && change.is_none() {
                None
            } else {
                let lines = differences(running, &desired, &change);
                Some(
                    Error::Diverged { instance: instance.to_text(), detail: join(&lines, "\n") },
                )
            }
        },
    }
}

/// An instance that was told exactly what the manifest says, and whose image
/// is not known to be another, is never said to have diverged.
pub proof fn an_unchanged_instance_is_kept(
    m: ClusterManifest,
    instance: Instance,
    ctx: ApplyContext,
    running: InstanceSpec,
    image: RunningImage,
)
    requires
        running@ == spec_of(m, instance, ctx),
        ctx.desired_image_id is None || image.id is None || ctx.desired_image_id->0@
            == image.id->0@,
    ensures
        divergence(m, instance, ctx, Told::Spec(running), image) is None,
{
}

/// Two lists of pairs hold the same pairs in the same order.
pub open spec fn pairs_agree(a: Seq<(String, String)>, b: Seq<(String, String)>) -> bool {
    a.len() == b.len() && forall|i: int|
        0 <= i < a.len() ==> (#[trigger] a[i]).0@ == b[i].0@ && a[i].1@ == b[i].1@
}

/// Two destinations agree in everything.
pub open spec fn destination_agrees(a: Destination, b: Destination) -> bool {
    &&& a.url@ == b.url@
    &&& opt_text(a.endpoint) == opt_text(b.endpoint)
    &&& opt_text(a.region) == opt_text(b.region)
    &&& a.verify_tls == b.verify_tls
    &&& pairs_agree(a.options@, b.options@)
    &&& opt_text(a.credentials) == opt_text(b.credentials)
}

proof fn pairs_agree_where_texts_do(a: Seq<(String, String)>, b: Seq<(String, String)>)
    ensures
        pairs_agree(a, b) <==> pair_texts(a) == pair_texts(b),
{
    let x = pair_texts(a);
    let y = pair_texts(b);
    if x == y {
        assert(x.len() == a.len() && y.len() == b.len());
        assert forall|i: int| 0 <= i < a.len() implies (#[trigger] a[i]).0@ == b[i].0@ && a[i].1@
            == b[i].1@ by {
            assert(x[i] == (a[i].0@, a[i].1@) && y[i] == (b[i].0@, b[i].1@));
        }
    }
    if pairs_agree(a, b) {
        assert forall|i: int| 0 <= i < x.len() implies x[i] == y[i] by {
            assert(a[i].0@ == b[i].0@);
        }
        assert(x =~= y);
    }
}

/// A running instance agrees with a manifest in everything an instance is
/// told, field by field.
pub open spec fn agrees_with(
    running: InstanceSpec,
    m: ClusterManifest,
    instance: Instance,
    ctx: ApplyContext,
) -> bool {
    &&& running.instance@ == instance.name()
    &&& running.port == 5432
    &&& running.bootstrap@ == ctx.bootstrap@
    &&& pairs_agree(running.parameters@, m.parameters@)
    &&& running.shared_preload_libraries.len() == m.shared_preload_libraries.len()
    &&& forall|i: int|
        0 <= i < m.shared_preload_libraries.len()
            ==> (#[trigger] running.shared_preload_libraries@[i])@
            == m.shared_preload_libraries@[i]@
    &&& opt_text(running.network_cidr) == opt_text(ctx.network_cidr)
    &&& ctx.destinations.len() == 0 ==> running.archive_command is None
    &&& ctx.destinations.len() > 0 ==> opt_text(running.archive_command) == Some(
        ctx.archive_command@,
    )
    &&& running.destinations.len() == ctx.destinations.len()
    &&& forall|i: int|
        0 <= i < ctx.destinations.len() ==> destination_agrees(
            #[trigger] running.destinations@[i],
            ctx.destinations@[i],
        )
    &&& opt_text(running.volume) == opt_text(m.backup.volume)
    &&& opt_text(running.retention) == opt_text(m.backup.retention)
    &&& running.retention_mode == m.backup.retention_mode
}

/// The images are not known to differ.
pub open spec fn image_may_be_the_same(ctx: ApplyContext, image: RunningImage) -> bool {
    match (ctx.desired_image_id, image.id) {
        (Some(d), Some(r)) => d@ == r@,
        _ => true,
    }
}

/// An instance is kept exactly where it was told what its manifest says, in
/// every field, and its image is not known to be another. Whatever else
/// differs, it is refused.
pub proof fn only_an_instance_that_fits_is_kept(
    m: ClusterManifest,
    instance: Instance,
    ctx: ApplyContext,
    running: InstanceSpec,
    image: RunningImage,
)
    ensures
        divergence(m, instance, ctx, Told::Spec(running), image) is None <==> agrees_with(
            running,
            m,
            instance,
            ctx,
        ) && image_may_be_the_same(ctx, image),
        divergence(m, instance, ctx, Told::Spec(running), image) matches Some(e) ==> (
        e matches ErrorView::Diverged { instance: i, .. } && i == instance.name()),
{
    let want = spec_of(m, instance, ctx);
    let has = running@;
    pairs_agree_where_texts_do(running.parameters@, m.parameters@);
    let x = has.shared_preload_libraries;
    let y = want.shared_preload_libraries;
    assert(x.len() == running.shared_preload_libraries.len());
    assert(y.len() == m.shared_preload_libraries.len());
    assert forall|i: int| 0 <= i < x.len() implies #[trigger] x[i]
        == running.shared_preload_libraries@[i]@ by {}
    assert forall|i: int| 0 <= i < y.len() implies #[trigger] y[i]
        == m.shared_preload_libraries@[i]@ by {}
    let d = has.destinations;
    let e = want.destinations;
    assert(d.len() == running.destinations.len());
    assert(e.len() == ctx.destinations.len());
    assert forall|i: int| 0 <= i < d.len() && i < e.len() implies (d[i] == e[i]
        <==> destination_agrees(#[trigger] running.destinations@[i], ctx.destinations@[i])) by {
        pairs_agree_where_texts_do(
            running.destinations@[i].options@,
            ctx.destinations@[i].options@,
        );
        assert(d[i] == running.destinations@[i]@);
        assert(e[i] == ctx.destinations@[i]@);
    }
    if has == want {
        assert forall|i: int| 0 <= i < m.shared_preload_libraries.len() implies (
        #[trigger] running.shared_preload_libraries@[i])@ == m.shared_preload_libraries@[i]@ by {
            assert(x[i] == y[i]);
        }
        assert(agrees_with(running, m, instance, ctx));
    }
    if agrees_with(running, m, instance, ctx) {
        assert(x =~= y);
        assert forall|i: int| 0 <= i < d.len() implies d[i] == e[i] by {
            assert(destination_agrees(running.destinations@[i], ctx.destinations@[i]));
        }
        assert(d =~= e);
        assert(has == want);
    }
}

/// A container that does not say what it was told, or says it unreadably, is
/// never kept.
pub proof fn a_container_must_say_what_it_was_told(
    m: ClusterManifest,
    instance: Instance,
    ctx: ApplyContext,
    why: String,
    image: RunningImage,
)
    ensures
        divergence(m, instance, ctx, Told::Nothing, image) matches Some(
            ErrorView::Diverged { instance: i, .. },
        ) && i == instance.name(),
        divergence(m, instance, ctx, Told::Unreadable(why), image) == Some(ErrorView::Spec(why@)),
        divergence(m, instance, ctx, Told::Invalid(why), image) == Some(ErrorView::Spec(why@)),
{
}

/// A line stands among others, and so do they.
proof fn noting_adds(out: Seq<Seq<char>>, field: Seq<char>, from: Seq<char>, to: Seq<char>)
    ensures
        forall|l: Seq<char>| #[trigger]
            out.contains(l) ==> noted(out, field, from, to).contains(l),
        from != to ==> noted(out, field, from, to).contains(
            "  "@ + field + ": "@ + from + " -> "@ + to,
        ),
        from == to ==> noted(out, field, from, to) == out,
{
    let r = noted(out, field, from, to);
    assert forall|l: Seq<char>| #[trigger] out.contains(l) implies r.contains(l) by {
        let k = choose|k: int| 0 <= k < out.len() && out[k] == l;
        assert(r[k] == l);
    }
    if from != to {
        assert(r[r.len() - 1] == "  "@ + field + ": "@ + from + " -> "@ + to);
    }
}

/// A change of a named field is told by its name, from what it was to what is
/// wanted.
pub open spec fn tells(o: Seq<Seq<char>>, field: Seq<char>, from: Seq<char>, to: Seq<char>) -> bool {
    from != to ==> o.contains("  "@ + field + ": "@ + from + " -> "@ + to)
}

/// A refusal names every named field that changed, with what it was and what
/// is wanted, and always says something.
pub proof fn a_refusal_names_what_changed(
    a: InstanceSpecView,
    b: InstanceSpecView,
    image: Option<(Seq<char>, Seq<char>)>,
)
    ensures
        ({
            let o = difference_lines(a, b, image);
            &&& o.len() > 0
            &&& image matches Some((from, to)) ==> tells(o, "image"@, from, to)
            &&& tells(o, "bootstrap"@, a.bootstrap, b.bootstrap)
            &&& tells(o, "parameters"@, debug_pairs(a.parameters), debug_pairs(b.parameters))
            &&& tells(
                o,
                "sharedPreloadLibraries"@,
                debug_list(a.shared_preload_libraries),
                debug_list(b.shared_preload_libraries),
            )
            &&& a.archive_command is None && b.archive_command is Some ==> tells(
                o,
                "archive_mode"@,
                "off"@,
                "on"@,
            )
            &&& a.archive_command is Some && b.archive_command is None ==> tells(
                o,
                "archive_mode"@,
                "on"@,
                "off"@,
            )
            &&& tells(o, "backup.destinations"@, urls(a), urls(b))
            &&& tells(o, "backup.retention"@, retention_line(a), retention_line(b))
        }),
{
    let o0 = match image {
        Some((from, to)) => noted(Seq::empty(), "image"@, from, to),
        None => Seq::empty(),
    };
    if let Some((from, to)) = image {
        noting_adds(Seq::empty(), "image"@, from, to);
    }
    let o1 = noted(o0, "bootstrap"@, a.bootstrap, b.bootstrap);
    noting_adds(o0, "bootstrap"@, a.bootstrap, b.bootstrap);
    let (pa, pb) = (debug_pairs(a.parameters), debug_pairs(b.parameters));
    let o2 = noted(o1, "parameters"@, pa, pb);
    noting_adds(o1, "parameters"@, pa, pb);
    let (la, lb) = (
        debug_list(a.shared_preload_libraries),
        debug_list(b.shared_preload_libraries),
    );
    let o3 = noted(o2, "sharedPreloadLibraries"@, la, lb);
    noting_adds(o2, "sharedPreloadLibraries"@, la, lb);
    let o4 = noted(o3, "archive_mode"@, archive_mode(a), archive_mode(b));
    noting_adds(o3, "archive_mode"@, archive_mode(a), archive_mode(b));
    let o5 = noted(o4, "backup.destinations"@, urls(a), urls(b));
    noting_adds(o4, "backup.destinations"@, urls(a), urls(b));
    let o6 = noted(o5, "backup.retention"@, retention_line(a), retention_line(b));
    noting_adds(o5, "backup.retention"@, retention_line(a), retention_line(b));
    let o = difference_lines(a, b, image);
    if o6.len() > 0 {
        assert(o == o6);
    } else {
        assert(forall|l: Seq<char>| !o6.contains(l));
    }
}

/// Every line of the difference stands in the refusal.
pub proof fn a_refusal_says_how_it_differs(
    m: ClusterManifest,
    instance: Instance,
    ctx: ApplyContext,
    running: InstanceSpec,
    image: RunningImage,
    line: Seq<char>,
)
    requires
        divergence(m, instance, ctx, Told::Spec(running), image) is Some,
        difference_lines(
            running@,
            spec_of(m, instance, ctx),
            image_change_of(opt_text(ctx.desired_image_id), image, m.image_name@),
        ).contains(line),
    ensures
        divergence(m, instance, ctx, Told::Spec(running), image) matches Some(
            ErrorView::Diverged { detail, .. },
        ) && occurs(detail, line),
{
    let o = difference_lines(
        running@,
        spec_of(m, instance, ctx),
        image_change_of(opt_text(ctx.desired_image_id), image, m.image_name@),
    );
    let k = choose|k: int| 0 <= k < o.len() && o[k] == line;
    every_part_is_there(o, "\n"@, k);
}

/// What an instance is told, field by field: what the manifest says of the
/// server and of backups, and where there is anywhere to archive to, how.
pub proof fn an_instance_is_told_its_manifest(
    m: ClusterManifest,
    instance: Instance,
    ctx: ApplyContext,
)
    ensures
        ({
            let s = spec_of(m, instance, ctx);
            &&& s.instance == instance.name()
            &&& s.port == 5432
            &&& s.bootstrap == ctx.bootstrap@
            &&& s.parameters == pair_texts(m.parameters@)
            &&& s.shared_preload_libraries == texts(m.shared_preload_libraries@)
            &&& s.network_cidr == opt_text(ctx.network_cidr)
            &&& s.destinations == destination_views(ctx.destinations@)
            &&& s.archive_command is Some <==> s.destinations.len() > 0
            &&& s.archive_command matches Some(c) ==> c == ctx.archive_command@
            &&& s.volume == opt_text(m.backup.volume)
            &&& s.retention == opt_text(m.backup.retention)
            &&& s.retention_mode == m.backup.retention_mode
        }),
{
}

/// What is written of parameters and destinations holds each of them.
pub proof fn what_is_written_of_a_list(s: InstanceSpecView, i: int)
    ensures
        0 <= i < s.parameters.len() ==> occurs(
            debug_pairs(s.parameters),
            "("@ + debug_form(s.parameters[i].0) + ", "@ + debug_form(s.parameters[i].1) + ")"@,
        ),
        0 <= i < s.destinations.len() ==> occurs(urls(s), s.destinations[i].url),
        s.destinations.len() == 0 ==> urls(s) == "none"@,
{
    if 0 <= i < s.parameters.len() {
        let parts = s.parameters.map_values(|p: (Seq<char>, Seq<char>)| debug_pair(p));
        every_part_is_there(parts, ", "@, i);
        a_part_of_a_part_occurs("["@, joined(parts, ", "@), "]"@, parts[i]);
    }
    if 0 <= i < s.destinations.len() {
        let parts = s.destinations.map_values(|d: DestinationView| d.url);
        every_part_is_there(parts, ", "@, i);
    }
}

/// What is written of retention says the window and whether it is enforced.
pub proof fn what_is_written_of_retention(s: InstanceSpecView)
    ensures
        s.retention matches Some(r) ==> occurs(retention_line(s), debug_form(r)),
        s.retention_mode == RetentionMode::Enforce ==> occurs(retention_line(s), "Enforce"@),
        s.retention_mode == RetentionMode::Report ==> occurs(retention_line(s), "Report"@),
{
    let t = retention_line(s);
    let mode = mode_word(s.retention_mode);
    a_part_occurs(debug_option(s.retention) + " ("@, mode, ")"@);
    if let Some(r) = s.retention {
        let d = debug_form(r);
        a_part_occurs("Some("@, d, ")"@);
        let rest = " ("@ + mode + ")"@;
        a_part_of_a_part_occurs(Seq::empty(), "Some("@ + d + ")"@, rest, d);
        assert(t =~= Seq::<char>::empty() + ("Some("@ + d + ")"@) + rest);
    }
}

/// An image id is shown by its first twelve characters at most, and without
/// its algorithm.
pub proof fn a_short_id_is_a_prefix(id: Seq<char>)
    ensures
        short(id).len() <= 12,
        short("sha256:"@ + id) == short(id),
        !begins_with(id, "sha256:"@) ==> short(id) == (if id.len() < 12 {
            id
        } else {
            id.take(12)
        }),
{
    reveal_strlit("sha256:");
    no_prefix_is_left(id, "sha256:"@);
    if id.len() == 12 {
        assert(id.take(12) =~= id);
    }
}

/// A known change of image is always a divergence, whatever was told, and the
/// difference names both images.
pub proof fn a_changed_image_is_noticed(
    m: ClusterManifest,
    instance: Instance,
    ctx: ApplyContext,
    running: InstanceSpec,
    image: RunningImage,
)
    requires
        ctx.desired_image_id is Some,
        image.id is Some,
        ctx.desired_image_id->0@ != image.id->0@,
    ensures
        divergence(m, instance, ctx, Told::Spec(running), image) is Some,
        image.name matches Some(n) ==> n@ != m.image_name@ ==> (divergence(
            m,
            instance,
            ctx,
            Told::Spec(running),
            image,
        ) matches Some(ErrorView::Diverged { detail, .. }) && occurs(
            detail,
            n@ + " -> "@ + m.image_name@,
        )),
{
    let from = match image.name {
        Some(n) => n@,
        None => short(image.id->0@),
    };
    let desired = spec_of(m, instance, ctx);
    let change = Some((from, m.image_name@));
    let o = difference_lines(running@, desired, change);
    a_refusal_names_what_changed(running@, desired, change);
    if from != m.image_name@ {
        let line = "  "@ + "image"@ + ": "@ + from + " -> "@ + m.image_name@;
        assert(o.contains(line));
        let head = "  "@ + "image"@ + ": "@;
        let tail = from + " -> "@ + m.image_name@;
        assert(line =~= head + tail);
        the_end_of_a_part_is_there(o, "\n"@, head, tail);
    }
}

/// What `refuse_if_diverged` gives back: nothing exactly where the instance
/// was told what the manifest says and its image is still the same.
pub proof fn who_is_refused(
    m: ClusterManifest,
    instance: Instance,
    ctx: ApplyContext,
    running: InstanceSpec,
    image: RunningImage,
    told: Told,
    r: Option<Error>,
)
    requires
        told == Told::Spec(running),
        call_ensures(refuse_if_diverged, (&m, &instance, &ctx, &told, &image), r),
    ensures
        r is None <==> agrees_with(running, m, instance, ctx) && image_may_be_the_same(ctx, image),
        r matches Some(e) ==> (e@ matches ErrorView::Diverged { instance: i, .. } && i
            == instance.name()),
{
    only_an_instance_that_fits_is_kept(m, instance, ctx, running, image);
}

} // verus!
