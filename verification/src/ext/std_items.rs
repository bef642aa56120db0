//! Types and calls from parts of `std` to which `vstd` gives no
//! specification.
use vstd::prelude::*;

verus! {

#[verifier::external_type_specification]
#[verifier::external_body]
pub struct ExPathBuf(std::path::PathBuf);

#[verifier::external_type_specification]
#[verifier::external_body]
pub struct ExInstant(std::time::Instant);

#[verifier::external_type_specification]
#[verifier::external_body]
#[verifier::reject_recursive_types(T)]
pub struct ExSender<T>(std::sync::mpsc::Sender<T>);

#[verifier::external_type_specification]
#[verifier::external_body]
#[verifier::reject_recursive_types(T)]
pub struct ExReceiver<T>(std::sync::mpsc::Receiver<T>);

/// `String::push`: appends `c` to `s`.
#[verifier::external_body]
pub fn string_push(s: &mut String, c: char)
    ensures
        final(s)@ == old(s)@.push(c),
{
    s.push(c)
}

/// `PathBuf::new`: an empty path.
#[verifier::external_body]
pub fn path_new() -> std::path::PathBuf {
    std::path::PathBuf::new()
}

/// `Clone` of `PathBuf`: a copy of the path, the same value.
#[verifier::external_body]
pub fn path_clone(p: &std::path::PathBuf) -> (r: std::path::PathBuf)
    ensures
        r == *p,
{
    p.clone()
}

/// The text `Path::to_string_lossy` gives for the path `p`: a function of
/// the path alone.
pub uninterp spec fn lossy_path_text(p: std::path::PathBuf) -> Seq<char>;

/// `Path::to_string_lossy`, owned: the path as text, with any bytes that
/// are not UTF-8 replaced. What that text is, is only named: Verus sees no
/// contents of a `PathBuf`.
#[verifier::external_body]
pub fn path_text(p: &std::path::PathBuf) -> (r: String)
    ensures
        r@ == lossy_path_text(*p),
{
    p.to_string_lossy().into()
}

/// `Instant::now`: the current time, whatever the clock reads.
#[verifier::external_body]
pub fn instant_now() -> std::time::Instant {
    std::time::Instant::now()
}

/// `Instant::elapsed`: the time passed since `t`, which depends on the
/// clock, so nothing is stated.
#[verifier::external_body]
pub fn instant_elapsed(t: &std::time::Instant) -> std::time::Duration {
    t.elapsed()
}

/// The whole seconds `Duration::as_secs` gives for `d`: a function of the
/// duration alone.
pub uninterp spec fn whole_secs(d: std::time::Duration) -> u64;

/// `Duration::as_secs`: the whole seconds of `d`, only named.
#[verifier::external_body]
pub fn duration_secs(d: &std::time::Duration) -> (r: u64)
    ensures
        r == whole_secs(*d),
{
    d.as_secs()
}

/// `Sender::send`: hands `data` to the channel; whether it arrives depends
/// on the receiving side, so nothing is stated.
#[verifier::external_body]
pub fn channel_send(s: &std::sync::mpsc::Sender<Vec<u8>>, data: Vec<u8>) {
    s.send(data).ok();
}

} // verus!
