//! The state shared by the editor's widgets.
use vstd::prelude::*;
use crate::input::VimInput;
use crate::lsp::Client;
use crate::model::open_file::OpenFile;
use crate::input::vim_input::Mode;

verus! {

/// The open file, the input machine, the working directory and the
/// language server client.
pub struct EditorState {
    open_file: Option<OpenFile>,
    input: VimInput,
    work_dir: std::path::PathBuf,
    lsp_client: Option<Client>,
}

impl EditorState {
    /// The file open in the editor, if any.
    pub closed spec fn current_file(&self) -> Option<OpenFile> {
        self.open_file
    }

    /// The input machine's mode.
    pub closed spec fn mode(&self) -> Mode {
        self.input.mode
    }

    /// The working directory.
    pub closed spec fn dir(&self) -> std::path::PathBuf {
        self.work_dir
    }

    /// The language server client, if one is set.
    pub closed spec fn lsp(&self) -> Option<Client> {
        self.lsp_client
    }

    /// The state for `work_dir`: no file open, normal mode, no language
    /// server.
    pub fn new(work_dir: std::path::PathBuf) -> (s: EditorState)
        ensures
            s.current_file() is None,
            s.mode() == Mode::Normal,
            s.dir() == work_dir,
            s.lsp() is None,
    {
        EditorState { open_file: None, input: VimInput::new(), work_dir, lsp_client: None }
    }

    pub fn open_file(&self) -> (r: &Option<OpenFile>)
        ensures
            *r == self.current_file(),
    {
        &self.open_file
    }

    pub fn set_open_file(&mut self, open_file: Option<OpenFile>)
        ensures
            final(self).current_file() == open_file,
            final(self).mode() == old(self).mode(),
            final(self).dir() == old(self).dir(),
    {
        self.open_file = open_file;
    }

    /// The open file, to edit in place.
    pub fn open_file_mut(&mut self) -> (r: &mut Option<OpenFile>)
        ensures
            *r == old(self).current_file(),
            final(self).current_file() == *final(r),
            final(self).mode() == old(self).mode(),
            final(self).dir() == old(self).dir(),
    {
        &mut self.open_file
    }

    pub fn work_dir(&self) -> (r: &std::path::PathBuf)
        ensures
            *r == self.dir(),
    {
        &self.work_dir
    }

    pub fn set_lsp_client(&mut self, client: Option<Client>)
        ensures
            final(self).lsp() == client,
            final(self).current_file() == old(self).current_file(),
            final(self).mode() == old(self).mode(),
            final(self).dir() == old(self).dir(),
    {
        self.lsp_client = client;
    }

    pub fn input(&self) -> (r: &VimInput)
        ensures
            r.mode == self.mode(),
    {
        &self.input
    }

    /// The input machine, to feed chars to.
    pub fn input_mut(&mut self) -> (r: &mut VimInput)
        ensures
            r.mode == old(self).mode(),
            final(self).mode() == final(r).mode,
            final(self).current_file() == old(self).current_file(),
            final(self).dir() == old(self).dir(),
    {
        &mut self.input
    }
}

} // verus!
