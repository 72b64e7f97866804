use vstd::prelude::*;

verus! {

/// A query text with its named parameters.
#[derive(Debug, PartialEq)]
pub struct CosmosQuery {
    pub query: String,
    pub parameters: Vec<CosmosParam>,
}

impl CosmosQuery {
    /// A query without parameters.
    pub fn new(query: String) -> (r: CosmosQuery)
        ensures
            r.query == query,
            r.parameters@.len() == 0,
    {
        CosmosQuery { query, parameters: Vec::new() }
    }

    /// A query with the given parameters.
    pub fn with_params(query: String, parameters: Vec<CosmosParam>) -> (r: CosmosQuery)
        ensures
            r.query == query,
            r.parameters == parameters,
    {
        CosmosQuery { query, parameters }
    }
}

/// A named parameter of a query and its JSON value.
#[derive(Debug, PartialEq)]
pub struct CosmosParam {
    pub name: String,
    pub value: serde_json::Value,
}

impl CosmosParam {
    /// The parameter `name` with the given value.
    pub fn new(name: String, value: serde_json::Value) -> (r: CosmosParam)
        ensures
            r.name == name,
            r.value == value,
    {
        CosmosParam { name, value }
    }
}

/// A request for the document `document_name` of a collection, in the partition of
/// one user.
#[derive(Debug, PartialEq, Eq)]
pub struct GetDocumentBuilder {
    pub collection_name: &'static str,
    pub document_name: String,
    pub partition_key: String,
}

impl GetDocumentBuilder {
    /// The request for `document_name` in `collection_name`, in the partition
    /// `partition_key`.
    pub fn new(collection_name: &'static str, document_name: String, partition_key: String) -> (r:
        GetDocumentBuilder)
        ensures
            r.collection_name == collection_name,
            r.document_name == document_name,
            r.partition_key == partition_key,
    {
        GetDocumentBuilder { collection_name, document_name, partition_key }
    }
}

/// A query over the documents of a collection.
#[derive(Debug, PartialEq)]
pub struct QueryDocumentsBuilder {
    pub collection_name: &'static str,
    pub query: CosmosQuery,
    pub query_cross_partition: bool,
    pub parallelize_cross_partition_query: bool,
}

impl QueryDocumentsBuilder {
    /// A query that stays within one partition.
    pub fn new(collection_name: &'static str, query: CosmosQuery) -> (r: QueryDocumentsBuilder)
        ensures
            r.collection_name == collection_name,
            r.query == query,
            !r.query_cross_partition,
            !r.parallelize_cross_partition_query,
    {
        QueryDocumentsBuilder {
            collection_name,
            query,
            query_cross_partition: false,
            parallelize_cross_partition_query: false,
        }
    }
}

} // verus!
