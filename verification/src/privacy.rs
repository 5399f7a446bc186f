//! Privacy monitoring: which applications use the camera, the microphone,
//! location services or screen capture.
use vstd::prelude::*;
use crate::signal::{emitted, Signal, SignalHandler, without_id};
use crate::text::{chars_of, contains_text, has_sub, lowercase, push_str, str_eq, string_of, to_lower};

verus! {

/// The line shown while location services are in use.
pub const LOCATION_IN_USE: &'static str = "∙ Location services active <i>(GeoClue)</i>";

/// The line shown while the webcam device is opened directly.
pub const WEBCAM_DIRECT: &'static str = "∙ Webcam device <i>(direct access)</i>";

/// The texts of a list, as a set.
pub open spec fn text_set(v: Seq<String>) -> Set<Seq<char>> {
    Set::new(|t: Seq<char>| exists|i: int| 0 <= i < v.len() && (#[trigger] v[i])@ == t)
}

/// No text occurs twice.
pub open spec fn distinct_texts(v: Seq<String>) -> bool {
    forall|i: int, j: int| 0 <= i < j < v.len() ==> (#[trigger] v[i])@ != (#[trigger] v[j])@
}

/// Which applications use what. Each list holds a text at most once.
#[derive(Debug, Clone)]
pub struct PrivacyUsage {
    pub camera: Vec<String>,
    pub microphone: Vec<String>,
    pub location: Vec<String>,
    pub screencast: Vec<String>,
}

/// The usage as sets.
pub struct UsageView {
    pub camera: Set<Seq<char>>,
    pub microphone: Set<Seq<char>>,
    pub location: Set<Seq<char>>,
    pub screencast: Set<Seq<char>>,
}

impl PrivacyUsage {
    pub open spec fn sets(&self) -> UsageView {
        UsageView {
            camera: text_set(self.camera@),
            microphone: text_set(self.microphone@),
            location: text_set(self.location@),
            screencast: text_set(self.screencast@),
        }
    }

    /// Every list holds each text at most once.
    pub open spec fn wf(&self) -> bool {
        &&& distinct_texts(self.camera@)
        &&& distinct_texts(self.microphone@)
        &&& distinct_texts(self.location@)
        &&& distinct_texts(self.screencast@)
    }

    /// No usage at all.
    pub fn empty() -> (u: PrivacyUsage)
        ensures
            u.wf(),
            u.sets().camera == Set::<Seq<char>>::empty(),
            u.sets().microphone == Set::<Seq<char>>::empty(),
            u.sets().location == Set::<Seq<char>>::empty(),
            u.sets().screencast == Set::<Seq<char>>::empty(),
    {
        let u = PrivacyUsage {
            camera: Vec::new(),
            microphone: Vec::new(),
            location: Vec::new(),
            screencast: Vec::new(),
        };
        assert(u.sets().camera =~= Set::<Seq<char>>::empty());
        assert(u.sets().microphone =~= Set::<Seq<char>>::empty());
        assert(u.sets().location =~= Set::<Seq<char>>::empty());
        assert(u.sets().screencast =~= Set::<Seq<char>>::empty());
        u
    }

    /// A copy of the usage.
    pub fn copy(&self) -> (u: PrivacyUsage)
        ensures
            u.camera@ == self.camera@,
            u.microphone@ == self.microphone@,
            u.location@ == self.location@,
            u.screencast@ == self.screencast@,
    {
        PrivacyUsage {
            camera: copy_texts(&self.camera),
            microphone: copy_texts(&self.microphone),
            location: copy_texts(&self.location),
            screencast: copy_texts(&self.screencast),
        }
    }
}

/// A copy of a list of texts.
pub fn copy_texts(v: &Vec<String>) -> (r: Vec<String>)
    ensures
        r@ == v@,
{
    let mut out: Vec<String> = Vec::new();
    let mut i: usize = 0;
    while i < v.len()
        invariant
            i <= v@.len(),
            out@ == v@.take(i as int),
        decreases v.len() - i,
    {
        out.push(v[i].clone());
        assert(v@.take(i + 1) =~= v@.take(i as int).push(v@[i as int]));
        i = i + 1;
    }
    assert(v@.take(v@.len() as int) =~= v@);
    out
}

/// Whether a text is in a list.
pub fn contains_str(v: &Vec<String>, t: &str) -> (b: bool)
    ensures
        b == text_set(v@).contains(t@),
{
    let mut i: usize = 0;
    while i < v.len()
        invariant
            i <= v@.len(),
            forall|j: int| 0 <= j < i ==> (#[trigger] v@[j])@ != t@,
        decreases v.len() - i,
    {
        if str_eq(v[i].as_str(), t) {
            assert(text_set(v@).contains(t@));
            return true;
        }
        i = i + 1;
    }
    false
}

/// Adds a text to a list that holds each text once, unless it is there.
pub fn insert_text(v: &mut Vec<String>, t: String)
    requires
        distinct_texts(old(v)@),
    ensures
        distinct_texts(final(v)@),
        text_set(final(v)@) == text_set(old(v)@).insert(t@),
{
    if !contains_str(v, t.as_str()) {
        let ghost before = v@;
        let ghost tv = t@;
        v.push(t);
        assert(text_set(v@) =~= text_set(before).insert(tv)) by {
            assert forall|x: Seq<char>| text_set(v@).contains(x) implies text_set(before).insert(tv).contains(x) by {
                let i = choose|i: int| 0 <= i < v@.len() && (#[trigger] v@[i])@ == x;
                if i < before.len() {
                    assert(before[i]@ == x);
                }
            }
            assert forall|x: Seq<char>| text_set(before).insert(tv).contains(x) implies text_set(v@).contains(x) by {
                if x == tv {
                    assert(v@[before.len() as int]@ == x);
                } else {
                    let i = choose|i: int| 0 <= i < before.len() && (#[trigger] before[i])@ == x;
                    assert(v@[i]@ == x);
                }
            }
        }
    } else {
        assert(text_set(v@) =~= text_set(v@).insert(t@));
    }
}

/// Whether two lists that hold each text once hold the same texts.
pub fn same_texts(a: &Vec<String>, b: &Vec<String>) -> (r: bool)
    requires
        distinct_texts(a@),
        distinct_texts(b@),
    ensures
        r == (text_set(a@) == text_set(b@)),
{
    let mut i: usize = 0;
    while i < a.len()
        invariant
            i <= a@.len(),
            forall|j: int| 0 <= j < i ==> text_set(b@).contains(#[trigger] a@[j]@),
        decreases a.len() - i,
    {
        if !contains_str(b, a[i].as_str()) {
            assert(text_set(a@).contains(a@[i as int]@));
            return false;
        }
        i = i + 1;
    }
    let mut k: usize = 0;
    while k < b.len()
        invariant
            k <= b@.len(),
            forall|j: int| 0 <= j < a@.len() ==> text_set(b@).contains(#[trigger] a@[j]@),
            forall|j: int| 0 <= j < k ==> text_set(a@).contains(#[trigger] b@[j]@),
        decreases b.len() - k,
    {
        if !contains_str(a, b[k].as_str()) {
            assert(text_set(b@).contains(b@[k as int]@));
            return false;
        }
        k = k + 1;
    }
    assert(text_set(a@) =~= text_set(b@)) by {
        assert forall|x: Seq<char>| text_set(a@).contains(x) implies text_set(b@).contains(x) by {
            let j = choose|j: int| 0 <= j < a@.len() && (#[trigger] a@[j])@ == x;
        }
        assert forall|x: Seq<char>| text_set(b@).contains(x) implies text_set(a@).contains(x) by {
            let j = choose|j: int| 0 <= j < b@.len() && (#[trigger] b@[j])@ == x;
        }
    }
    true
}

/// Whether two usages hold the same applications.
pub open spec fn same_usage(a: UsageView, b: UsageView) -> bool {
    a.camera == b.camera && a.microphone == b.microphone && a.location == b.location
        && a.screencast == b.screencast
}

/// The privacy service: the current usage, and the signal that announces
/// each change of it.
pub struct PrivacyService {
    usage: PrivacyUsage,
    usage_changed: Signal<PrivacyUsage>,
}

impl PrivacyService {
    #[verifier::type_invariant]
    closed spec fn well_formed(&self) -> bool {
        self.usage.wf()
    }

    /// The current usage.
    pub closed spec fn current(&self) -> UsageView {
        self.usage.sets()
    }

    pub closed spec fn changed_signal(&self) -> Signal<PrivacyUsage> {
        self.usage_changed
    }

    /// A service that sees no usage.
    pub fn new() -> (s: Self)
        ensures
            s.current().camera == Set::<Seq<char>>::empty(),
            s.current().microphone == Set::<Seq<char>>::empty(),
            s.current().location == Set::<Seq<char>>::empty(),
            s.current().screencast == Set::<Seq<char>>::empty(),
            s.changed_signal().ids() == Seq::<u64>::empty(),
            s.changed_signal().next_id() == 0,
            s.changed_signal().emissions().len() == 0,
    {
        PrivacyService { usage: PrivacyUsage::empty(), usage_changed: Signal::new() }
    }

    /// A copy of the current usage.
    pub fn get_usage(&self) -> (u: PrivacyUsage)
        ensures
            u.wf(),
            u.sets() == self.current(),
    {
        proof {
            use_type_invariant(self);
        }
        self.usage.copy()
    }

    /// Connects a handler called with the usage after each change.
    pub fn connect_usage_changed<F: Fn(PrivacyUsage) + Send + 'static>(&mut self, callback: F) -> (h: SignalHandler)
        requires
            old(self).changed_signal().next_id() < u64::MAX,
            forall|v: PrivacyUsage| call_requires(callback, (v,)),
        ensures
            h.spec_id() == old(self).changed_signal().next_id(),
            final(self).changed_signal().ids() == old(self).changed_signal().ids().push(h.spec_id()),
            final(self).current() == old(self).current(),
    {
        proof {
            use_type_invariant(&*self);
        }
        let mut sig: Signal<PrivacyUsage> = Signal::new();
        std::mem::swap(&mut sig, &mut self.usage_changed);
        let h = sig.connect(callback);
        self.usage_changed = sig;
        h
    }

    /// Disconnects a handler.
    pub fn disconnect(&mut self, handler: SignalHandler)
        ensures
            final(self).changed_signal().ids() == without_id(old(self).changed_signal().ids(), handler.spec_id()),
            final(self).current() == old(self).current(),
    {
        proof {
            use_type_invariant(&*self);
        }
        let mut sig: Signal<PrivacyUsage> = Signal::new();
        std::mem::swap(&mut sig, &mut self.usage_changed);
        sig.disconnect(handler);
        self.usage_changed = sig;
    }

    /// Replaces the usage: where it differs from the current one it is stored
    /// and emitted; otherwise nothing happens. Returns whether it differed.
    pub fn update_usage(&mut self, usage: PrivacyUsage) -> (changed: bool)
        requires
            usage.wf(),
        ensures
            changed == !same_usage(usage.sets(), old(self).current()),
            changed ==> final(self).current() == usage.sets(),
            !changed ==> final(self).current() == old(self).current(),
            changed ==> exists|u: PrivacyUsage|
                u.sets() == usage.sets() && #[trigger] emitted(old(self).changed_signal(), final(self).changed_signal(), u),
            !changed ==> final(self).changed_signal() == old(self).changed_signal(),
    {
        proof {
            use_type_invariant(&*self);
        }
        let same = same_texts(&usage.camera, &self.usage.camera) && same_texts(
            &usage.microphone,
            &self.usage.microphone,
        ) && same_texts(&usage.location, &self.usage.location) && same_texts(
            &usage.screencast,
            &self.usage.screencast,
        );
        if same {
            return false;
        }
        let copy = usage.copy();
        let ghost g = copy;
        self.usage = usage;
        let mut sig: Signal<PrivacyUsage> = Signal::new();
        std::mem::swap(&mut sig, &mut self.usage_changed);
        sig.emit_sync(copy);
        self.usage_changed = sig;
        assert(emitted(old(self).changed_signal(), self.changed_signal(), g));
        true
    }

    /// The media monitor reported the applications using the camera, the
    /// microphone and screen capture; location stays as it is.
    pub fn media_usage_changed(&mut self, camera: Vec<String>, microphone: Vec<String>, screencast: Vec<String>) -> (changed: bool)
        requires
            distinct_texts(camera@),
            distinct_texts(microphone@),
            distinct_texts(screencast@),
        ensures
            final(self).current().location == old(self).current().location,
            changed ==> final(self).current().camera == text_set(camera@)
                && final(self).current().microphone == text_set(microphone@)
                && final(self).current().screencast == text_set(screencast@),
            changed == !(text_set(camera@) == old(self).current().camera && text_set(microphone@)
                == old(self).current().microphone && text_set(screencast@) == old(self).current().screencast),
            changed ==> exists|u: PrivacyUsage|
                u.sets() == final(self).current() && #[trigger] emitted(old(self).changed_signal(), final(self).changed_signal(), u),
            !changed ==> final(self).changed_signal() == old(self).changed_signal(),
    {
        proof {
            use_type_invariant(&*self);
        }
        let usage = PrivacyUsage {
            camera,
            microphone,
            location: copy_texts(&self.usage.location),
            screencast,
        };
        self.update_usage(usage)
    }

    /// Location services went in or out of use: in use shows the GeoClue
    /// line, out of use clears the location usage.
    pub fn location_in_use_changed(&mut self, in_use: bool) -> (changed: bool)
        ensures
            in_use ==> final(self).current().location == old(self).current().location.insert(LOCATION_IN_USE@),
            !in_use ==> final(self).current().location == Set::<Seq<char>>::empty(),
            final(self).current().camera == old(self).current().camera,
            final(self).current().microphone == old(self).current().microphone,
            final(self).current().screencast == old(self).current().screencast,
            changed ==> exists|u: PrivacyUsage|
                u.sets() == final(self).current() && #[trigger] emitted(old(self).changed_signal(), final(self).changed_signal(), u),
            !changed ==> final(self).changed_signal() == old(self).changed_signal(),
    {
        proof {
            use_type_invariant(&*self);
        }
        let mut location = copy_texts(&self.usage.location);
        if in_use {
            insert_text(&mut location, LOCATION_IN_USE.to_string());
        } else {
            location = Vec::new();
            assert(text_set(location@) =~= Set::<Seq<char>>::empty());
        }
        let usage = PrivacyUsage {
            camera: copy_texts(&self.usage.camera),
            microphone: copy_texts(&self.usage.microphone),
            location,
            screencast: copy_texts(&self.usage.screencast),
        };
        self.update_usage(usage)
    }
}

impl Default for PrivacyService {
    fn default() -> (s: Self)
        ensures
            s.current().camera == Set::<Seq<char>>::empty(),
    {
        PrivacyService::new()
    }
}

// ---------------------------------------------------------------------------
// Media streams
// ---------------------------------------------------------------------------
/// The kind of media a stream carries, with its media class.
#[derive(Debug, Clone, PartialEq)]
pub enum Media {
    Video(String),
    Audio(String),
}

/// A capturing or casting stream of an application.
#[derive(Debug, Clone)]
pub struct ApplicationNode {
    pub id: u32,
    pub media: Media,
    pub app_name: String,
    pub node_name: String,
    pub media_role: Option<String>,
    pub media_name: Option<String>,
}

/// What the media monitor hears.
#[derive(Debug, Clone)]
pub enum PrivacyEvent {
    AddNode(ApplicationNode),
    RemoveNode(u32),
    WebcamOpen,
    WebcamClose,
}

/// Whether a stream of this application counts: not PipeWire's own, not a
/// monitor, a built-in audio device or Bluetooth, in any case, and not
/// `Unknown`.
pub open spec fn app_counts(app_name: Seq<char>) -> bool {
    let l = lowercase(app_name);
    &&& !has_sub(l, "pipewire"@)
    &&& !has_sub(l, "wireplumber"@)
    &&& !has_sub(l, "monitor"@)
    &&& !has_sub(l, "built-in audio"@)
    &&& !has_sub(l, "bluez"@)
    &&& app_name != "Unknown"@
}

/// The text that describes a stream, lowercased when checked.
pub open spec fn stream_text(n: ApplicationNode, media_class: Seq<char>) -> Seq<char> {
    n.app_name@ + " "@ + n.node_name@ + " "@ + media_class + " "@ + match n.media_role {
        Some(r) => r@,
        None => Seq::empty(),
    } + " "@ + match n.media_name {
        Some(m) => m@,
        None => Seq::empty(),
    }
}

/// Whether a video stream is screen capture rather than a camera.
pub open spec fn is_screen_stream(n: ApplicationNode, media_class: Seq<char>) -> bool {
    let l = lowercase(stream_text(n, media_class));
    ||| has_sub(l, "webrtc-consume-stream"@)
    ||| has_sub(l, "screen"@)
    ||| has_sub(l, "desktop"@)
    ||| has_sub(l, "capture"@)
    ||| has_sub(l, "share"@)
    ||| has_sub(l, "stream/output/video"@)
}

/// The line shown for an application: with its node where that differs and
/// is known.
pub open spec fn app_line(app_name: Seq<char>, node_name: Seq<char>) -> Seq<char> {
    if app_name != node_name && node_name != "Unknown"@ && node_name.len() != 0 {
        "∙ "@ + app_name + " <i>("@ + node_name + ")</i>"@
    } else {
        "∙ "@ + app_name
    }
}

/// A video stream that is a camera.
pub open spec fn is_camera_node(n: ApplicationNode) -> bool {
    match n.media {
        Media::Video(c) => !is_screen_stream(n, c@),
        Media::Audio(_) => false,
    }
}

/// A video stream that is screen capture.
pub open spec fn is_screen_node(n: ApplicationNode) -> bool {
    match n.media {
        Media::Video(c) => is_screen_stream(n, c@),
        Media::Audio(_) => false,
    }
}

/// An audio stream.
pub open spec fn is_mic_node(n: ApplicationNode) -> bool {
    n.media is Audio
}

/// The line of a stream's application.
pub open spec fn node_line(n: ApplicationNode) -> Seq<char> {
    app_line(n.app_name@, n.node_name@)
}

/// What the usage is for a list of streams and the webcam's direct users.
pub open spec fn categorized(nodes: Seq<ApplicationNode>, webcam_access: i32) -> (Set<Seq<char>>, Set<Seq<char>>, Set<Seq<char>>) {
    (
        Set::new(|t: Seq<char>| (webcam_access > 0 && t == WEBCAM_DIRECT@) || exists|i: int|
            0 <= i < nodes.len() && is_camera_node(#[trigger] nodes[i]) && node_line(nodes[i]) == t),
        Set::new(|t: Seq<char>| exists|i: int|
            0 <= i < nodes.len() && is_mic_node(#[trigger] nodes[i]) && node_line(nodes[i]) == t),
        Set::new(|t: Seq<char>| exists|i: int|
            0 <= i < nodes.len() && is_screen_node(#[trigger] nodes[i]) && node_line(nodes[i]) == t),
    )
}

/// A video stream whose lowercased description (application, node, class,
/// role and media name) mentions a screen, the desktop, a capture, a share, a
/// WebRTC consumer stream or an output video stream is listed under screen
/// casting, and is never taken for a camera.
pub proof fn law_screen_words_mean_screencast(nodes: Seq<ApplicationNode>, webcam_access: i32, i: int)
    requires
        0 <= i < nodes.len(),
        nodes[i].media is Video,
        ({
            let l = lowercase(stream_text(nodes[i], nodes[i].media->Video_0@));
            ||| has_sub(l, "webrtc-consume-stream"@)
            ||| has_sub(l, "screen"@)
            ||| has_sub(l, "desktop"@)
            ||| has_sub(l, "capture"@)
            ||| has_sub(l, "share"@)
            ||| has_sub(l, "stream/output/video"@)
        }),
    ensures
        is_screen_node(nodes[i]),
        !is_camera_node(nodes[i]),
        categorized(nodes, webcam_access).2.contains(node_line(nodes[i])),
{
    assert(is_screen_node(nodes[i]));
}

/// A video stream whose lowercased description mentions none of the casting
/// markers is listed under the camera, and not under screen casting.
pub proof fn law_plain_video_is_camera(nodes: Seq<ApplicationNode>, webcam_access: i32, i: int)
    requires
        0 <= i < nodes.len(),
        nodes[i].media is Video,
        ({
            let l = lowercase(stream_text(nodes[i], nodes[i].media->Video_0@));
            &&& !has_sub(l, "webrtc-consume-stream"@)
            &&& !has_sub(l, "screen"@)
            &&& !has_sub(l, "desktop"@)
            &&& !has_sub(l, "capture"@)
            &&& !has_sub(l, "share"@)
            &&& !has_sub(l, "stream/output/video"@)
        }),
    ensures
        is_camera_node(nodes[i]),
        !is_screen_node(nodes[i]),
        categorized(nodes, webcam_access).0.contains(node_line(nodes[i])),
{
    assert(is_camera_node(nodes[i]));
}

fn has_text(s: &[char], p: &str) -> (b: bool)
    ensures
        b == has_sub(s@, p@),
{
    let pv = chars_of(p);
    contains_text(s, pv.as_slice())
}

/// The stream's node, as the media monitor records one, where its class is
/// captured video or audio, or cast video, and its application counts.
pub fn node_for_global(
    id: u32,
    media_class: &str,
    app_name: String,
    node_name: String,
    media_role: Option<String>,
    media_name: Option<String>,
) -> (r: Option<ApplicationNode>)
    ensures
        r is Some <==> ((media_class@ == "Stream/Input/Video"@ || media_class@ == "Stream/Input/Audio"@
            || media_class@ == "Stream/Output/Video"@) && app_counts(app_name@)),
        r matches Some(n) ==> {
            &&& n.id == id
            &&& n.app_name@ == app_name@
            &&& n.node_name@ == node_name@
            &&& n.media_role == media_role
            &&& n.media_name == media_name
            &&& media_class@ == "Stream/Input/Audio"@ ==> (n.media is Audio && n.media->Audio_0@ == media_class@)
            &&& media_class@ != "Stream/Input/Audio"@ ==> (n.media is Video && n.media->Video_0@ == media_class@)
        },
{
    let video_in = str_eq(media_class, "Stream/Input/Video");
    let audio_in = str_eq(media_class, "Stream/Input/Audio");
    let video_out = str_eq(media_class, "Stream/Output/Video");
    if !(video_in || audio_in || video_out) {
        return None;
    }
    if !PipeWireMonitor::should_include_app(app_name.as_str()) {
        return None;
    }
    let media = if audio_in {
        Media::Audio(media_class.to_string())
    } else {
        Media::Video(media_class.to_string())
    };
    Some(ApplicationNode { id, media, app_name, node_name, media_role, media_name })
}

/// The media monitor's bookkeeping: the streams it knows, how many opened the
/// webcam directly, and the usage it last reported.
pub struct PipeWireMonitor {
    nodes: Vec<ApplicationNode>,
    webcam_access: i32,
    last_camera: Vec<String>,
    last_mic: Vec<String>,
    last_screencast: Vec<String>,
}

impl PipeWireMonitor {
    /// Whether a stream of this application counts.
    pub fn should_include_app(app_name: &str) -> (b: bool)
        ensures
            b == app_counts(app_name@),
    {
        let lower = to_lower(app_name);
        let l = chars_of(lower.as_str());
        !has_text(l.as_slice(), "pipewire") && !has_text(l.as_slice(), "wireplumber") && !has_text(
            l.as_slice(),
            "monitor",
        ) && !has_text(l.as_slice(), "built-in audio") && !has_text(l.as_slice(), "bluez")
            && !str_eq(app_name, "Unknown")
    }

    /// Whether a video stream is screen capture.
    pub fn is_screencast(node: &ApplicationNode, media_class: &str) -> (b: bool)
        ensures
            b == is_screen_stream(*node, media_class@),
    {
        let mut text = chars_of(node.app_name.as_str());
        push_str(" ", &mut text);
        push_str(node.node_name.as_str(), &mut text);
        push_str(" ", &mut text);
        push_str(media_class, &mut text);
        push_str(" ", &mut text);
        match &node.media_role {
            Some(r) => push_str(r.as_str(), &mut text),
            None => {},
        }
        push_str(" ", &mut text);
        match &node.media_name {
            Some(m) => push_str(m.as_str(), &mut text),
            None => {},
        }
        assert(text@ =~= stream_text(*node, media_class@));
        let joined = string_of(text.as_slice());
        let lower = to_lower(joined.as_str());
        let l = chars_of(lower.as_str());
        has_text(l.as_slice(), "webrtc-consume-stream") || has_text(l.as_slice(), "screen")
            || has_text(l.as_slice(), "desktop") || has_text(l.as_slice(), "capture") || has_text(
            l.as_slice(),
            "share",
        ) || has_text(l.as_slice(), "stream/output/video")
    }

    /// The line shown for an application.
    pub fn format_app_name(app_name: &str, node_name: &str) -> (s: String)
        ensures
            s@ == app_line(app_name@, node_name@),
    {
        let differs = !str_eq(app_name, node_name) && !str_eq(node_name, "Unknown")
            && node_name.unicode_len() != 0;
        let mut out = chars_of("∙ ");
        push_str(app_name, &mut out);
        if differs {
            push_str(" <i>(", &mut out);
            push_str(node_name, &mut out);
            push_str(")</i>", &mut out);
        }
        proof {
            if differs {
                assert(out@ =~= app_line(app_name@, node_name@));
            } else {
                assert(out@ =~= app_line(app_name@, node_name@));
            }
        }
        string_of(out.as_slice())
    }

    /// The camera, microphone and screen-capture usage of the streams; the
    /// webcam line counts where anything opened the device directly.
    pub fn categorize_nodes(nodes: &Vec<ApplicationNode>, webcam_access: i32) -> (r: (Vec<String>, Vec<String>, Vec<String>))
        ensures
            distinct_texts(r.0@),
            distinct_texts(r.1@),
            distinct_texts(r.2@),
            text_set(r.0@) == categorized(nodes@, webcam_access).0,
            text_set(r.1@) == categorized(nodes@, webcam_access).1,
            text_set(r.2@) == categorized(nodes@, webcam_access).2,
    {
        let mut camera: Vec<String> = Vec::new();
        let mut mic: Vec<String> = Vec::new();
        let mut screen: Vec<String> = Vec::new();
        if webcam_access > 0 {
            insert_text(&mut camera, WEBCAM_DIRECT.to_string());
        }
        assert(text_set(Seq::<String>::empty()) =~= Set::<Seq<char>>::empty());
        let mut i: usize = 0;
        while i < nodes.len()
            invariant
                i <= nodes@.len(),
                distinct_texts(camera@),
                distinct_texts(mic@),
                distinct_texts(screen@),
                text_set(camera@) == categorized(nodes@.take(i as int), webcam_access).0,
                text_set(mic@) == categorized(nodes@.take(i as int), webcam_access).1,
                text_set(screen@) == categorized(nodes@.take(i as int), webcam_access).2,
            decreases nodes.len() - i,
        {
            let node = &nodes[i];
            let line = Self::format_app_name(node.app_name.as_str(), node.node_name.as_str());
            let ghost pre = nodes@.take(i as int);
            let ghost post = nodes@.take(i + 1);
            proof {
                assert(post =~= pre.push(nodes@[i as int]));
            }
            match &node.media {
                Media::Video(c) => {
                    if Self::is_screencast(node, c.as_str()) {
                        insert_text(&mut screen, line);
                    } else {
                        insert_text(&mut camera, line);
                    }
                },
                Media::Audio(_) => {
                    insert_text(&mut mic, line);
                },
            }
            proof {
                lemma_categorized_push(pre, nodes@[i as int], webcam_access);
            }
            i = i + 1;
        }
        assert(nodes@.take(nodes@.len() as int) =~= nodes@);
        (camera, mic, screen)
    }

    /// A monitor that knows no stream, with the webcam's current direct
    /// users.
    pub fn new(webcam_access: i32) -> (m: Self)
        ensures
            m.wf(),
            m.known_nodes().len() == 0,
            m.webcam_users() == webcam_access,
    {
        PipeWireMonitor {
            nodes: Vec::new(),
            webcam_access,
            last_camera: Vec::new(),
            last_mic: Vec::new(),
            last_screencast: Vec::new(),
        }
    }

    /// The last report holds each line at most once.
    pub closed spec fn wf(&self) -> bool {
        &&& distinct_texts(self.last_camera@)
        &&& distinct_texts(self.last_mic@)
        &&& distinct_texts(self.last_screencast@)
    }

    pub closed spec fn known_nodes(&self) -> Seq<ApplicationNode> {
        self.nodes@
    }

    pub closed spec fn webcam_users(&self) -> i32 {
        self.webcam_access
    }

    pub closed spec fn last_reported(&self) -> (Set<Seq<char>>, Set<Seq<char>>, Set<Seq<char>>) {
        (text_set(self.last_camera@), text_set(self.last_mic@), text_set(self.last_screencast@))
    }

    /// Handles an event: a stream added or removed, or the webcam device
    /// opened or closed (`device_users` is then how many hold it open). Where
    /// the usage changed since the last report, it is reported: camera,
    /// microphone, screen capture.
    pub fn handle_event(&mut self, event: PrivacyEvent, device_users: i32) -> (r: Option<(Vec<String>, Vec<String>, Vec<String>)>)
        requires
            old(self).wf(),
        ensures
            final(self).wf(),
            final(self).known_nodes() == match event {
                PrivacyEvent::AddNode(n) => old(self).known_nodes().push(n),
                PrivacyEvent::RemoveNode(id) => nodes_without(old(self).known_nodes(), id),
                _ => old(self).known_nodes(),
            },
            final(self).webcam_users() == match event {
                PrivacyEvent::WebcamOpen | PrivacyEvent::WebcamClose => device_users,
                _ => old(self).webcam_users(),
            },
            ({
                let now = categorized(final(self).known_nodes(), final(self).webcam_users());
                &&& final(self).last_reported() == now
                &&& r is Some <==> now != old(self).last_reported()
                &&& r matches Some(u) ==> text_set(u.0@) == now.0 && text_set(u.1@) == now.1
                    && text_set(u.2@) == now.2
            }),
    {
        match event {
            PrivacyEvent::AddNode(n) => {
                self.nodes.push(n);
            },
            PrivacyEvent::RemoveNode(id) => {
                let mut kept: Vec<ApplicationNode> = Vec::new();
                let mut rest: Vec<ApplicationNode> = Vec::new();
                std::mem::swap(&mut rest, &mut self.nodes);
                let ghost orig = rest@;
                while rest.len() > 0
                    invariant
                        nodes_without(orig, id) == kept@ + nodes_without(rest@, id),
                    decreases rest@.len(),
                {
                    let ghost before = rest@;
                    let x = rest.remove(0);
                    proof {
                        assert(before.drop_first() =~= rest@);
                        lemma_nodes_without_front(before, id);
                    }
                    if x.id != id {
                        let ghost k0 = kept@;
                        kept.push(x);
                        assert(k0.push(x) + nodes_without(rest@, id) =~= k0 + (seq![x] + nodes_without(rest@, id)));
                    }
                }
                assert(kept@ + nodes_without(rest@, id) =~= kept@);
                self.nodes = kept;
            },
            PrivacyEvent::WebcamOpen => {
                self.webcam_access = device_users;
            },
            PrivacyEvent::WebcamClose => {
                self.webcam_access = device_users;
            },
        }
        let (camera, mic, screen) = Self::categorize_nodes(&self.nodes, self.webcam_access);
        let same = same_texts(&camera, &self.last_camera) && same_texts(&mic, &self.last_mic)
            && same_texts(&screen, &self.last_screencast);
        if same {
            return None;
        }
        self.last_camera = copy_texts(&camera);
        self.last_mic = copy_texts(&mic);
        self.last_screencast = copy_texts(&screen);
        Some((camera, mic, screen))
    }
}

/// The streams without those with the given id, in order.
pub open spec fn nodes_without(s: Seq<ApplicationNode>, id: u32) -> Seq<ApplicationNode>
    decreases s.len(),
{
    if s.len() == 0 {
        s
    } else if s.last().id == id {
        nodes_without(s.drop_last(), id)
    } else {
        nodes_without(s.drop_last(), id).push(s.last())
    }
}

proof fn lemma_nodes_without_front(s: Seq<ApplicationNode>, id: u32)
    requires
        s.len() > 0,
    ensures
        nodes_without(s, id) == if s[0].id == id {
            nodes_without(s.drop_first(), id)
        } else {
            seq![s[0]] + nodes_without(s.drop_first(), id)
        },
    decreases s.len(),
{
    if s.len() > 1 {
        lemma_nodes_without_front(s.drop_last(), id);
        assert(s.drop_last().drop_first() =~= s.drop_first().drop_last());
        assert(s.drop_first().last() == s.last());
    } else {
        assert(s.drop_first() =~= Seq::<ApplicationNode>::empty());
        assert(s.drop_last() =~= Seq::<ApplicationNode>::empty());
    }
}

proof fn lemma_categorized_push(s: Seq<ApplicationNode>, n: ApplicationNode, w: i32)
    ensures
        categorized(s.push(n), w).0 == if is_camera_node(n) {
            categorized(s, w).0.insert(node_line(n))
        } else {
            categorized(s, w).0
        },
        categorized(s.push(n), w).1 == if is_mic_node(n) {
            categorized(s, w).1.insert(node_line(n))
        } else {
            categorized(s, w).1
        },
        categorized(s.push(n), w).2 == if is_screen_node(n) {
            categorized(s, w).2.insert(node_line(n))
        } else {
            categorized(s, w).2
        },
{
    let t = s.push(n);
    assert forall|i: int| 0 <= i < s.len() implies t[i] == s[i] by {}
    assert(t[s.len() as int] == n);
    let c0 = if is_camera_node(n) { categorized(s, w).0.insert(node_line(n)) } else { categorized(s, w).0 };
    assert(categorized(t, w).0 =~= c0) by {
        assert forall|x: Seq<char>| categorized(t, w).0.contains(x) implies c0.contains(x) by {
            if !(w > 0 && x == WEBCAM_DIRECT@) {
                let i = choose|i: int| 0 <= i < t.len() && is_camera_node(#[trigger] t[i]) && node_line(t[i]) == x;
                if i < s.len() {
                    assert(s[i] == t[i]);
                }
            }
        }
        assert forall|x: Seq<char>| c0.contains(x) implies categorized(t, w).0.contains(x) by {
            if !(w > 0 && x == WEBCAM_DIRECT@) && !(is_camera_node(n) && x == node_line(n)) {
                let i = choose|i: int| 0 <= i < s.len() && is_camera_node(#[trigger] s[i]) && node_line(s[i]) == x;
                assert(t[i] == s[i]);
            }
        }
    }
    let c1 = if is_mic_node(n) { categorized(s, w).1.insert(node_line(n)) } else { categorized(s, w).1 };
    assert(categorized(t, w).1 =~= c1) by {
        assert forall|x: Seq<char>| categorized(t, w).1.contains(x) implies c1.contains(x) by {
            let i = choose|i: int| 0 <= i < t.len() && is_mic_node(#[trigger] t[i]) && node_line(t[i]) == x;
            if i < s.len() {
                assert(s[i] == t[i]);
            }
        }
        assert forall|x: Seq<char>| c1.contains(x) implies categorized(t, w).1.contains(x) by {
            if !(is_mic_node(n) && x == node_line(n)) {
                let i = choose|i: int| 0 <= i < s.len() && is_mic_node(#[trigger] s[i]) && node_line(s[i]) == x;
                assert(t[i] == s[i]);
            }
        }
    }
    let c2 = if is_screen_node(n) { categorized(s, w).2.insert(node_line(n)) } else { categorized(s, w).2 };
    assert(categorized(t, w).2 =~= c2) by {
        assert forall|x: Seq<char>| categorized(t, w).2.contains(x) implies c2.contains(x) by {
            let i = choose|i: int| 0 <= i < t.len() && is_screen_node(#[trigger] t[i]) && node_line(t[i]) == x;
            if i < s.len() {
                assert(s[i] == t[i]);
            }
        }
        assert forall|x: Seq<char>| c2.contains(x) implies categorized(t, w).2.contains(x) by {
            if !(is_screen_node(n) && x == node_line(n)) {
                let i = choose|i: int| 0 <= i < s.len() && is_screen_node(#[trigger] s[i]) && node_line(s[i]) == x;
                assert(t[i] == s[i]);
            }
        }
    }
}

} // verus!
