use vstd::prelude::*;

verus! {

/// Options for compiling component documents: where imports are looked up,
/// and which widget style is used.
pub struct CompilerConfiguration {
    include_paths: Vec<String>,
    style: Option<String>,
}

impl CompilerConfiguration {
    pub closed spec fn include_paths_spec(&self) -> Seq<Seq<char>> {
        self.include_paths@.map_values(|p: String| p@)
    }

    pub closed spec fn style_spec(&self) -> Option<Seq<char>> {
        match self.style {
            Some(s) => Some(s@),
            None => None,
        }
    }

    /// No include path and the default style.
    pub fn new() -> (r: CompilerConfiguration)
        ensures
            r.include_paths_spec() == Seq::<Seq<char>>::empty(),
            r.style_spec() is None,
    {
        let r = CompilerConfiguration { include_paths: Vec::new(), style: None };
        assert(r.include_paths_spec() =~= Seq::<Seq<char>>::empty());
        r
    }

    /// The same configuration, looking up imports in `include_paths`, in order.
    pub fn with_include_paths(self, include_paths: Vec<String>) -> (r: CompilerConfiguration)
        ensures
            r.include_paths_spec() == include_paths@.map_values(|p: String| p@),
            r.style_spec() == self.style_spec(),
    {
        CompilerConfiguration { include_paths, style: self.style }
    }

    /// The same configuration, with widgets in style `style`.
    pub fn with_style(self, style: String) -> (r: CompilerConfiguration)
        ensures
            r.include_paths_spec() == self.include_paths_spec(),
            r.style_spec() == Some(style@),
    {
        CompilerConfiguration { include_paths: self.include_paths, style: Some(style) }
    }

    /// The include paths, in order.
    pub fn include_paths(&self) -> (r: &Vec<String>)
        ensures
            r@.map_values(|p: String| p@) == self.include_paths_spec(),
    {
        &self.include_paths
    }

    /// The selected style, if any.
    pub fn style(&self) -> (r: Option<&str>)
        ensures
            match r {
                Some(s) => self.style_spec() == Some(s@),
                None => self.style_spec() is None,
            },
    {
        match &self.style {
            Some(s) => Some(s.as_str()),
            None => None,
        }
    }
}

} // verus!
