use vstd::prelude::*;

verus! {

/// Job of the no-op test source.
#[derive(Debug, Clone, PartialEq, Eq)]
pub struct Test {}

/// Job of the marketplace source: one product, named by its product code.
#[derive(Debug, Clone, PartialEq, Eq)]
pub struct Amzn {
    pub product_code: String,
}

/// A decoded scrape job: one variant per compiled-in source.
#[derive(Debug, Clone, PartialEq, Eq)]
pub enum Job {
    Test(Test),
    Amzn(Amzn),
}

/// What a job is, as a mathematical value.
pub enum JobView {
    Test,
    Amzn(Seq<char>),
}

impl View for Job {
    type V = JobView;

    open spec fn view(&self) -> JobView {
        match self {
            Job::Test(_) => JobView::Test,
            Job::Amzn(a) => JobView::Amzn(a.product_code@),
        }
    }
}

pub open spec fn test_source_name() -> Seq<char> {
    seq!['t', 'e', 's', 't']
}

pub open spec fn amzn_source_name() -> Seq<char> {
    seq!['a', 'm', 'z', 'n']
}

/// The source tag of a job.
pub open spec fn source_name_of(j: JobView) -> Seq<char> {
    match j {
        JobView::Test => test_source_name(),
        JobView::Amzn(_) => amzn_source_name(),
    }
}

/// Unique id of a marketplace job: source tag, `" - "`, product code.
pub open spec fn amzn_unique_id(code: Seq<char>) -> Seq<char> {
    amzn_source_name() + seq![' ', '-', ' '] + code
}

/// Unique id of the test job.
pub open spec fn test_unique_id() -> Seq<char> {
    seq!['T', 'e', 's', 't', '-', 'p', 'a', 'y', 'l', 'o', 'a', 'd']
}

pub open spec fn unique_id_of(j: JobView) -> Seq<char> {
    match j {
        JobView::Test => test_unique_id(),
        JobView::Amzn(code) => amzn_unique_id(code),
    }
}

/// Product page of a marketplace job.
pub open spec fn product_url(code: Seq<char>) -> Seq<char> {
    seq!['h', 't', 't', 'p', 's', ':', '/', '/', 'w', 'w', 'w', '.', 'a', 'm', 'a', 'z', 'o', 'n',
        '.', 's', 'g', '/', 'd', 'p', '/'] + code
}

/// The name every source reports.
pub trait Source {
    spec fn source_name(&self) -> Seq<char>;

    fn get_source_name(&self) -> (r: String)
        ensures
            r@ == self.source_name(),
    ;
}

impl Source for Test {
    open spec fn source_name(&self) -> Seq<char> {
        test_source_name()
    }

    fn get_source_name(&self) -> (r: String) {
        let r = String::from_str("test");
        proof {
            reveal_strlit("test");
        }
        r
    }
}

impl Source for Amzn {
    open spec fn source_name(&self) -> Seq<char> {
        amzn_source_name()
    }

    fn get_source_name(&self) -> (r: String) {
        let r = String::from_str("amzn");
        proof {
            reveal_strlit("amzn");
        }
        r
    }
}

impl Source for Job {
    open spec fn source_name(&self) -> Seq<char> {
        source_name_of(self@)
    }

    fn get_source_name(&self) -> (r: String) {
        match self {
            Job::Test(t) => t.get_source_name(),
            Job::Amzn(a) => a.get_source_name(),
        }
    }
}

impl Test {
    /// The fixed id of the test job.
    pub fn get_unique_id(&self) -> (r: String)
        ensures
            r@ == test_unique_id(),
    {
        let r = String::from_str("Test-payload");
        proof {
            reveal_strlit("Test-payload");
        }
        r
    }
}

impl Amzn {
    /// The product code this job targets.
    pub fn get_product_asin_code(&self) -> (r: String)
        ensures
            r@ == self.product_code@,
    {
        self.product_code.clone()
    }

    /// `"amzn - <product code>"`.
    pub fn get_unique_id(&self) -> (r: String)
        ensures
            r@ == amzn_unique_id(self.product_code@),
    {
        let source = self.get_source_name();
        let sep = String::from_str(" - ");
        proof {
            reveal_strlit(" - ");
        }
        let head = source.concat(sep.as_str());
        let code = self.get_product_asin_code();
        head.concat(code.as_str())
    }

    /// The product page that a scrape of this job requests.
    pub fn target_url(&self) -> (r: String)
        ensures
            r@ == product_url(self.product_code@),
    {
        let base = String::from_str("https://www.amazon.sg/dp/");
        proof {
            reveal_strlit("https://www.amazon.sg/dp/");
        }
        let code = self.get_product_asin_code();
        base.concat(code.as_str())
    }
}

impl Job {
    /// The unique id of the job, advisory only.
    pub fn get_unique_id(&self) -> (r: String)
        ensures
            r@ == unique_id_of(self@),
    {
        match self {
            Job::Test(t) => t.get_unique_id(),
            Job::Amzn(a) => a.get_unique_id(),
        }
    }
}

} // verus!
