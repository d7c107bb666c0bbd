<!doctype html>
<html lang="en" data-bs-theme="light">
<head>
<meta charset="utf-8"><meta name="viewport" content="width=device-width, initial-scale=1">
<title>CalStack — Categories</title>
<link rel="stylesheet" href="/assets/css/bootstrap.min.css">
<link rel="stylesheet" href="/assets/css/bootstrap-icons.css">
<link rel="stylesheet" href="/assets/css/app.css">
<link rel="icon" type="image/png" sizes="16x16" href="/assets/img/favicon-16x16.png">
<link rel="icon" type="image/png" sizes="32x32" href="/assets/img/favicon-32x32.png">
<link rel="apple-touch-icon" href="/assets/img/apple-touch-icon.png">
<script src="/assets/js/theme.js"></script>
</head>
<body class="bg-body-tertiary">
<!-- header -->
<!-- menu -->
<div class="container p-3">
  <div class="d-flex align-items-center gap-2 mb-1">
    <h1 class="h4 mb-0">Categories</h1>
    <select class="form-select form-select-sm w-auto" id="cat-calendar-select">
      <option value="">All calendars</option>
    </select>
  </div>
  <p id="cat-scope-note" class="text-body-secondary small"></p>
  <form id="cat-form" class="card p-3 mb-4">
    <div class="row g-2 align-items-end">
      <div class="col"><label class="form-label" for="cat-name">Name</label>
        <input class="form-control" id="cat-name" required></div>
      <div class="col"><label class="form-label" for="cat-slug">Slug</label>
        <input class="form-control" id="cat-slug" pattern="[a-z0-9][a-z0-9-]*" required></div>
      <div class="col-auto"><label class="form-label" for="cat-color">Color</label>
        <select class="form-select" id="cat-color"></select></div>
      <div class="col-auto form-check mb-2">
        <input class="form-check-input" type="checkbox" id="cat-global">
        <label class="form-check-label" for="cat-global">Apply to all calendars</label></div>
      <div class="col-auto d-flex align-items-end">
        <button class="btn btn-primary" type="submit">Add category</button></div>
    </div>
  </form>
  <table class="table table-sm bg-body">
    <thead><tr><th>Preview</th><th>Name</th><th>Slug</th><th>Scope</th><th></th></tr></thead>
    <tbody id="cat-rows"></tbody>
  </table>
</div>
<script src="/assets/js/jquery.min.js"></script>
<script src="/assets/js/jquery-migrate.min.js"></script>
<script src="/assets/js/api.js"></script>
<script src="/assets/js/bootstrap.bundle.min.js"></script>
<script src="/assets/js/dialogs.js"></script>
<script src="/assets/js/categories.js"></script>
<!-- footer -->
</body></html>
