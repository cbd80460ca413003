//! The document produced by the last successful compilation, and the
//! decisions that read it: compile outcomes, pages to render, pages clicked.

use vstd::prelude::*;

use crate::diagnostic::{
    all_fit, all_resolved, process_diagnostics, CompilationError, RawDiagnostic,
    TypstSourceDiagnostic,
};

verus! {

/// Why pages could not be rendered.
#[derive(Clone, Copy, Debug, PartialEq, Eq, Structural)]
pub enum RenderError {
    NoCompilationCache,
    NoPage,
}

/// Why a cursor position has no place in the preview.
#[derive(Clone, Copy, Debug, PartialEq, Eq, Structural)]
pub enum CursorPositionError {
    NoCompilationCache,
    NoPosition,
    OutOfBounds,
}

/// Why a click on the preview could not be resolved.
#[derive(Clone, Copy, Debug, PartialEq, Eq, Structural)]
pub enum ClickError {
    NoWorkspace,
    NoPage,
    NoCompilationCache,
}

/// Why no completion could be offered.
#[derive(Clone, Copy, Debug, PartialEq, Eq, Structural)]
pub enum AutocompleteError {
    NoCompletion,
    CursorOutOfBounds,
    NoCompletions,
}

/// A half-open range of positions.
#[derive(Clone, Copy, Debug, PartialEq, Eq, Structural)]
pub struct Range<T> {
    pub start: T,
    pub end: T,
}

/// The last successfully compiled document `D`, with its number of pages.
///
/// A successful compilation replaces it; a failed one leaves it as it was.
pub struct DocumentCache<D> {
    document: Option<D>,
    page_count: usize,
}

impl<D> DocumentCache<D> {
    /// The cached document and its number of pages, if any.
    pub closed spec fn cached(&self) -> Option<(D, nat)> {
        match self.document {
            Some(d) => Some((d, self.page_count as nat)),
            None => None,
        }
    }

    /// The number of pages of the cached document.
    pub open spec fn pages(&self) -> Option<nat> {
        match self.cached() {
            Some((_, n)) => Some(n),
            None => None,
        }
    }

    /// `c1` and `r` follow from compiling with `c0` cached, when the compiler
    /// gave `warnings` and `output`.
    pub open spec fn compile_post(
        c0: Self,
        c1: Self,
        warnings: Seq<RawDiagnostic>,
        output: Result<(D, usize), Vec<RawDiagnostic>>,
        r: Result<Vec<TypstSourceDiagnostic>, CompilationError>,
    ) -> bool {
        match output {
            Ok((doc, n)) => {
                &&& c1.cached() == Some((doc, n as nat))
                &&& r matches Ok(ws) && all_resolved(warnings, ws@)
            },
            Err(errors) => {
                &&& c1.cached() == c0.cached()
                &&& r matches Err(CompilationError(ds)) && all_resolved(warnings + errors@, ds@)
            },
        }
    }

    /// An empty cache.
    pub fn new() -> (r: Self)
        ensures
            r.cached() is None,
    {
        DocumentCache { document: None, page_count: 0 }
    }

    /// The cached document.
    pub fn get(&self) -> (r: Option<&D>)
        ensures
            r is None <==> self.cached() is None,
            r matches Some(d) ==> self.cached() matches Some((c, _)) && c == *d,
    {
        self.document.as_ref()
    }

    /// The number of pages of the cached document.
    pub fn page_count(&self) -> (r: Option<usize>)
        ensures
            r is None <==> self.pages() is None,
            r matches Some(n) ==> self.pages() == Some(n as nat),
    {
        match self.document {
            Some(_) => Some(self.page_count),
            None => None,
        }
    }

    /// Drops the cached document.
    pub fn reset(&mut self)
        ensures
            final(self).cached() is None,
    {
        self.document = None;
        self.page_count = 0;
    }

    /// Records the outcome of a compilation: `warnings` always, and either
    /// the document with its number of pages or the errors. On success the
    /// document replaces the cached one and the warnings are returned; on
    /// failure the cache stays and the warnings followed by the errors are
    /// returned. Every diagnostic is returned, with its position resolved.
    pub fn record_compile(
        &mut self,
        warnings: Vec<RawDiagnostic>,
        output: Result<(D, usize), Vec<RawDiagnostic>>,
    ) -> (r: Result<Vec<TypstSourceDiagnostic>, CompilationError>)
        requires
            all_fit(warnings@),
            output matches Err(errors) ==> all_fit(errors@),
        ensures
            Self::compile_post(*old(self), *final(self), warnings@, output, r),
    {
        let ghost ws = warnings@;
        match output {
            Ok((doc, n)) => {
                self.document = Some(doc);
                self.page_count = n;
                Ok(process_diagnostics(warnings))
            },
            Err(errors) => {
                let ghost es = errors@;
                let mut all = warnings;
                let mut errors = errors;
                all.append(&mut errors);
                assert(all@ =~= ws + es);
                Err(CompilationError(process_diagnostics(all)))
            },
        }
    }

    /// The number of pages to render: an error when nothing was compiled.
    pub fn pages_to_render(&self) -> (r: Result<usize, RenderError>)
        ensures
            self.pages() is None ==> r == Err::<usize, RenderError>(RenderError::NoCompilationCache),
            self.pages() matches Some(n) ==> r matches Ok(m) && m == n,
    {
        match self.document {
            Some(_) => Ok(self.page_count),
            None => Err(RenderError::NoCompilationCache),
        }
    }

    /// The document, when page `page` (counted from 0) exists in it.
    pub fn page_to_render(&self, page: usize) -> (r: Result<&D, RenderError>)
        ensures
            r is Ok <==> (self.pages() matches Some(n) && page < n),
            r matches Ok(d) ==> self.cached() matches Some((c, _)) && c == *d,
            r matches Err(e) ==> e == RenderError::NoPage,
    {
        match &self.document {
            Some(d) => {
                if page < self.page_count {
                    Ok(d)
                } else {
                    Err(RenderError::NoPage)
                }
            },
            None => Err(RenderError::NoPage),
        }
    }

    /// The document, when a click on page `page` (counted from 0) can be
    /// resolved in it.
    pub fn page_for_click(&self, page: usize) -> (r: Result<&D, ClickError>)
        ensures
            self.pages() is None ==> r == Err::<&D, ClickError>(ClickError::NoCompilationCache),
            self.pages() matches Some(n) ==> (r is Ok <==> page < n),
            (self.pages() matches Some(n) && page >= n) ==> r == Err::<&D, ClickError>(ClickError::NoPage),
            r matches Ok(d) ==> self.cached() matches Some((c, _)) && c == *d,
    {
        match &self.document {
            Some(d) => {
                if page < self.page_count {
                    Ok(d)
                } else {
                    Err(ClickError::NoPage)
                }
            },
            None => Err(ClickError::NoCompilationCache),
        }
    }

    /// The document, for a query that needs a compiled document.
    pub fn document_for_cursor(&self) -> (r: Result<&D, CursorPositionError>)
        ensures
            r is Err <==> self.cached() is None,
            r matches Err(e) ==> e == CursorPositionError::NoCompilationCache,
            r matches Ok(d) ==> self.cached() matches Some((c, _)) && c == *d,
    {
        match &self.document {
            Some(d) => Ok(d),
            None => Err(CursorPositionError::NoCompilationCache),
        }
    }
}

/// A failed compilation leaves the cached document, and every diagnostic
/// is reported: warnings first, then errors, each resolved, none dropped.
pub proof fn lemma_failed_compile_keeps_document<D>(
    c0: DocumentCache<D>,
    c1: DocumentCache<D>,
    warnings: Seq<RawDiagnostic>,
    errors: Vec<RawDiagnostic>,
    r: Result<Vec<TypstSourceDiagnostic>, CompilationError>,
)
    requires
        DocumentCache::compile_post(c0, c1, warnings, Err(errors), r),
    ensures
        c1.cached() == c0.cached(),
        r matches Err(CompilationError(ds)) && ds@.len() == warnings.len() + errors@.len(),
{
}

} // verus!
