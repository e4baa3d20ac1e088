//! Compiled path templates.  A template such as `/{key}/{value}/` is split
//! on `/` into segments; a segment written `{name}` matches any non-empty
//! path segment and binds it under `name`, any other segment matches itself
//! literally.

use vstd::prelude::*;

use crate::request::Params;
use crate::strutil;
use crate::strutil::spec_split;

verus! {

/// The model of one compiled template segment.
pub ghost enum SegModel {
    Literal(Seq<char>),
    Param(Seq<char>),
}

/// One compiled template segment.
pub enum PatternSegment {
    Literal(String),
    Param(String),
}

impl View for PatternSegment {
    type V = SegModel;

    open spec fn view(&self) -> SegModel {
        match self {
            PatternSegment::Literal(s) => SegModel::Literal(s@),
            PatternSegment::Param(s) => SegModel::Param(s@),
        }
    }
}

impl DeepView for PatternSegment {
    type V = SegModel;

    open spec fn deep_view(&self) -> SegModel {
        self.view()
    }
}

/// How one segment of a template is compiled: `{name}` becomes a parameter,
/// everything else a literal.
pub open spec fn spec_compile_seg(s: Seq<char>) -> SegModel {
    if s.len() >= 2 && s[0] == '{' && s.last() == '}' {
        SegModel::Param(s.subrange(1, s.len() - 1))
    } else {
        SegModel::Literal(s)
    }
}

/// The compiled form of a whole template.
pub open spec fn spec_compile(pattern: Seq<char>) -> Seq<SegModel> {
    spec_split(pattern, '/').map_values(|s: Seq<char>| spec_compile_seg(s))
}

/// Whether one compiled segment matches one path segment.
pub open spec fn spec_seg_matches(seg: SegModel, part: Seq<char>) -> bool {
    match seg {
        SegModel::Literal(l) => l == part,
        SegModel::Param(_) => part.len() > 0,
    }
}

/// Whether a compiled template matches a path: the split path has exactly
/// one part per segment and every segment matches its part.
pub open spec fn spec_pattern_matches(segs: Seq<SegModel>, path: Seq<char>) -> bool {
    let parts = spec_split(path, '/');
    segs.len() == parts.len() && (forall|i: int|
        0 <= i < segs.len() ==> spec_seg_matches(segs[i], parts[i]))
}

/// The parameters a match binds, in declaration order: each `{name}`
/// segment contributes the path part it matched.
pub open spec fn spec_params_of(segs: Seq<SegModel>, parts: Seq<Seq<char>>) -> Seq<
    (Seq<char>, Seq<char>),
>
    decreases segs.len(),
{
    if segs.len() == 0 || parts.len() == 0 {
        Seq::empty()
    } else {
        let init = spec_params_of(segs.drop_last(), parts.drop_last());
        match segs.last() {
            SegModel::Param(name) => init.push((name, parts.last())),
            SegModel::Literal(_) => init,
        }
    }
}

/// The parameters a compiled template binds against a path it matches.
pub open spec fn spec_pattern_params(segs: Seq<SegModel>, path: Seq<char>) -> Seq<
    (Seq<char>, Seq<char>),
> {
    spec_params_of(segs, spec_split(path, '/'))
}

/// A compiled path template.
pub struct ResourcePattern {
    segments: Vec<PatternSegment>,
}

impl View for ResourcePattern {
    type V = Seq<SegModel>;

    closed spec fn view(&self) -> Seq<SegModel> {
        self.segments.deep_view()
    }
}

impl ResourcePattern {
    /// Compile a template.
    pub fn new(pattern: &str) -> (r: ResourcePattern)
        ensures
            r@ =~~= spec_compile(pattern@),
    {
        let parts = strutil::split_str(pattern, '/');
        let n = parts.len();
        let mut segments: Vec<PatternSegment> = Vec::new();
        for i in 0..n
            invariant
                n == parts.len(),
                parts.deep_view() =~~= spec_split(pattern@, '/'),
                segments.deep_view().len() == i,
                forall|j: int|
                    0 <= j < i ==> segments.deep_view()[j] == spec_compile_seg(
                        parts.deep_view()[j],
                    ),
        {
            let part = &parts[i];
            let len = part.as_str().unicode_len();
            proof {
                assert(parts.deep_view()[i as int] == parts@[i as int]@);
            }
            let seg = if len >= 2 && part.as_str().get_char(0) == '{' && part.as_str().get_char(
                len - 1,
            ) == '}' {
                let name = part.as_str().substring_char(1, len - 1).to_owned();
                PatternSegment::Param(name)
            } else {
                PatternSegment::Literal(part.clone())
            };
            proof {
                assert(seg@ == spec_compile_seg(parts.deep_view()[i as int]));
            }
            let ghost prev = segments.deep_view();
            segments.push(seg);
            proof {
                assert forall|j: int| 0 <= j < prev.len() + 1 implies segments.deep_view()[j] == (
                if j < prev.len() {
                    prev[j]
                } else {
                    seg@
                }) by {
                    assert(segments@[j] == if j < prev.len() {
                        segments@[j]
                    } else {
                        seg
                    });
                }
            }
        }
        proof {
            assert(segments.deep_view() =~~= spec_compile(pattern@));
        }
        ResourcePattern { segments }
    }

    /// The number of compiled segments.
    pub fn len(&self) -> (r: usize)
        ensures
            r == self@.len(),
    {
        self.segments.len()
    }

    /// Match a path against the template.  On a match the bound parameters
    /// come back in declaration order; on a mismatch nothing does.
    pub fn match_path(&self, path: &str) -> (r: Option<Params>)
        ensures
            match r {
                Some(params) => spec_pattern_matches(self@, path@) && params@
                    == spec_pattern_params(self@, path@),
                None => !spec_pattern_matches(self@, path@),
            },
    {
        let parts = strutil::split_str(path, '/');
        let n = self.segments.len();
        if parts.len() != n {
            return None;
        }
        let ghost gparts = spec_split(path@, '/');
        let mut params = Params::new();
        for i in 0..n
            invariant
                n == self.segments.len(),
                n == parts.len(),
                parts.deep_view() =~~= gparts,
                gparts == spec_split(path@, '/'),
                n == gparts.len(),
                forall|j: int| 0 <= j < i ==> spec_seg_matches(self@[j], gparts[j]),
                params@ == spec_params_of(self@.take(i as int), gparts.take(i as int)),
        {
            proof {
                assert(parts.deep_view()[i as int] == parts@[i as int]@);
                assert(self@[i as int] == self.segments@[i as int]@);
                assert(self@.take(i as int + 1).drop_last() =~= self@.take(i as int));
                assert(gparts.take(i as int + 1).drop_last() =~= gparts.take(i as int));
            }
            match &self.segments[i] {
                PatternSegment::Literal(l) => {
                    if !strutil::str_eq(l.as_str(), parts[i].as_str()) {
                        return None;
                    }
                },
                PatternSegment::Param(name) => {
                    if parts[i].as_str().is_empty() {
                        return None;
                    }
                    params.push(name.clone(), parts[i].clone());
                },
            }
        }
        proof {
            assert(self@.take(n as int) =~= self@);
            assert(gparts.take(n as int) =~= gparts);
        }
        Some(params)
    }
}

} // verus!
